use vstd::prelude::*;

verus! {

/// The two sections that make the mod loader override the texture whose hash is
/// `name` with the artifact `<name>.dds`.
pub open spec fn unit_sections(name: Seq<char>) -> Seq<char> {
    "[TextureOverride"@ + name + "]\nhash = "@ + name + "\nthis = Resource"@ + name
        + "\n\n[Resource"@ + name + "]\nfilename = "@ + name + ".dds\n\n"@
}

/// The sections of every unit of `names`, in order.
pub open spec fn texture_ini(names: Seq<String>) -> Seq<char>
    decreases names.len(),
{
    if names.len() == 0 {
        Seq::empty()
    } else {
        texture_ini(names.drop_last()) + unit_sections(names.last()@)
    }
}

/// Appends `b` to `s`.
fn push_text(s: &mut String, b: &str)
    ensures
        final(s)@ == old(s)@ + b@,
{
    s.append(b);
}

/// The texture-override configuration of a texture mod whose units are named `names`
/// (each name being the hash of the texture it replaces).
pub fn gen_ini(names: &Vec<String>) -> (r: String)
    ensures
        r@ == texture_ini(names@),
{
    let mut out = String::new();
    let mut i: usize = 0;
    while i < names.len()
        invariant
            i <= names@.len(),
            out@ == texture_ini(names@.subrange(0, i as int)),
        decreases names@.len() - i,
    {
        let ghost before = out@;
        let n = names[i].as_str();
        push_text(&mut out, "[TextureOverride");
        push_text(&mut out, n);
        push_text(&mut out, "]\nhash = ");
        push_text(&mut out, n);
        push_text(&mut out, "\nthis = Resource");
        push_text(&mut out, n);
        push_text(&mut out, "\n\n[Resource");
        push_text(&mut out, n);
        push_text(&mut out, "]\nfilename = ");
        push_text(&mut out, n);
        push_text(&mut out, ".dds\n\n");
        assert(names@.subrange(0, i + 1).drop_last() =~= names@.subrange(0, i as int));
        assert(out@ =~= before + unit_sections(n@));
        i = i + 1;
    }
    assert(names@.subrange(0, names@.len() as int) =~= names@);
    out
}

} // verus!
