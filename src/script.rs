use vstd::prelude::*;

verus! {

/// How one command of a script is chained to the next.
#[derive(Clone, Copy, Debug, PartialEq, Eq, Structural)]
pub enum Operator {
    /// ` | `: feed each line the command prints to the next segment.
    Pipe,
    /// ` || `: run the next segment if the command fails to start.
    Or,
    /// ` && `: run the next segment if the command succeeds.
    And,
    /// End of line: run the command and stop.
    Terminate,
}

/// One command of a script, its arguments, and the rest of the script chained to it.
#[derive(Debug)]
pub struct ScriptParser {
    pub command: String,
    pub args: Vec<String>,
    pub operator: Operator,
    pub next_segment: Option<Box<ScriptParser>>,
}

/// The text that separates a command from the next one.
pub open spec fn op_text(op: Operator) -> Seq<char> {
    match op {
        Operator::Pipe => seq![' ', '|', ' '],
        Operator::Or => seq![' ', '|', '|', ' '],
        Operator::And => seq![' ', '&', '&', ' '],
        Operator::Terminate => seq!['\n'],
    }
}

/// The first position at or after `j` where `t` occurs in `s`.
pub open spec fn first_from(s: Seq<char>, t: Seq<char>, j: int) -> Option<int>
    decreases s.len() + 1 - j,
{
    if j < 0 || j + t.len() > s.len() {
        None
    } else if s.subrange(j, j + t.len()) == t {
        Some(j)
    } else {
        first_from(s, t, j + 1)
    }
}

/// Keeps the earlier of the occurrence found so far and that of `op`.
pub open spec fn pick(s: Seq<char>, acc: (Operator, Option<int>), op: Operator) -> (
    Operator,
    Option<int>,
) {
    let f = first_from(s, op_text(op), 0);
    match acc.1 {
        None => (op, f),
        Some(i) => match f {
            Some(k) => if k < i {
                (op, Some(k))
            } else {
                acc
            },
            None => acc,
        },
    }
}

/// The operator that occurs first in `s`, and where; operators are tried in the order
/// pipe, or, and, end of line. With none in `s`, the segment ends the script.
pub open spec fn earliest(s: Seq<char>) -> (Operator, Option<int>) {
    pick(
        s,
        pick(
            s,
            pick(s, pick(s, (Operator::Terminate, None), Operator::Pipe), Operator::Or),
            Operator::And,
        ),
        Operator::Terminate,
    )
}

/// `s` split at every space.
pub open spec fn split_spaces(s: Seq<char>) -> Seq<Seq<char>>
    decreases s.len(),
{
    if s.len() == 0 {
        seq![Seq::empty()]
    } else {
        let w = split_spaces(s.drop_last());
        if s.last() == ' ' {
            w.push(Seq::empty())
        } else {
            w.update(w.len() - 1, w.last().push(s.last()))
        }
    }
}

/// The text of each string of `v`.
pub open spec fn texts(v: Seq<String>) -> Seq<Seq<char>> {
    v.map_values(|a: String| a@)
}

/// `p` is the parse of script `s`: the first segment, up to the first operator, is split
/// at spaces into the command and its arguments; the text after the operator, if any,
/// is parsed into the next segment.
pub open spec fn parses_as(p: ScriptParser, s: Seq<char>) -> bool
    decreases s.len(),
{
    let (op, idx) = earliest(s);
    let left = match idx {
        Some(pos) => s.subrange(0, pos),
        None => s,
    };
    let rest = match idx {
        Some(pos) => s.subrange(pos + op_text(op).len(), s.len() as int),
        None => Seq::empty(),
    };
    let words = split_spaces(left);
    &&& p.command@ == words[0]
    &&& texts(p.args@) == words.subrange(1, words.len() as int)
    &&& p.operator == op
    &&& if rest.len() == 0 {
        p.next_segment is None
    } else {
        &&& rest.len() < s.len()
        &&& p.next_segment matches Some(n) && parses_as(*n, rest)
    }
}

/// An occurrence found by `first_from` lies inside `s`.
proof fn lemma_first_from(s: Seq<char>, t: Seq<char>, j: int)
    ensures
        first_from(s, t, j) matches Some(k) ==> j <= k && k + t.len() <= s.len() && 0 <= k,
    decreases s.len() + 1 - j,
{
    if !(j < 0 || j + t.len() > s.len()) && s.subrange(j, j + t.len()) != t {
        lemma_first_from(s, t, j + 1);
    }
}

/// The operator `earliest` picks occurs where it says.
proof fn lemma_earliest(s: Seq<char>)
    ensures
        earliest(s).1 matches Some(pos) ==> 0 <= pos && pos + op_text(earliest(s).0).len()
            <= s.len(),
{
    lemma_first_from(s, op_text(Operator::Pipe), 0);
    lemma_first_from(s, op_text(Operator::Or), 0);
    lemma_first_from(s, op_text(Operator::And), 0);
    lemma_first_from(s, op_text(Operator::Terminate), 0);
}

/// Every split of a text has at least one word.
proof fn lemma_split_nonempty(s: Seq<char>)
    ensures
        split_spaces(s).len() >= 1,
    decreases s.len(),
{
    if s.len() > 0 {
        lemma_split_nonempty(s.drop_last());
    }
}

impl Operator {
    /// The text that separates a command from the next one.
    pub fn text(&self) -> (r: &'static str)
        ensures
            r@ == op_text(*self),
    {
        proof {
            reveal_strlit(" | ");
            reveal_strlit(" || ");
            reveal_strlit(" && ");
            reveal_strlit("\n");
        }
        match self {
            Operator::Pipe => " | ",
            Operator::Or => " || ",
            Operator::And => " && ",
            Operator::Terminate => "\n",
        }
    }
}

/// The first position of `t` in `s`.
fn find(s: &str, t: &str) -> (r: Option<usize>)
    ensures
        r matches Some(k) ==> first_from(s@, t@, 0) == Some(k as int),
        r is None ==> first_from(s@, t@, 0) is None,
{
    let n = s.unicode_len();
    let m = t.unicode_len();
    if m > n {
        return None;
    }
    let mut j: usize = 0;
    while j <= n - m
        invariant
            n == s@.len(),
            m == t@.len(),
            m <= n,
            j <= n - m + 1,
            first_from(s@, t@, 0) == first_from(s@, t@, j as int),
        decreases n + 1 - j,
    {
        let mut k: usize = 0;
        let mut same = true;
        while k < m
            invariant
                n == s@.len(),
                m == t@.len(),
                j + m <= n,
                k <= m,
                same == forall|q: int| 0 <= q < k ==> s@[j + q] == t@[q],
            decreases m - k,
        {
            if s.get_char(j + k) != t.get_char(k) {
                same = false;
            }
            k = k + 1;
        }
        if same {
            assert(s@.subrange(j as int, j + m) =~= t@);
            return Some(j);
        }
        assert(s@.subrange(j as int, j + m) != t@) by {
            let q = choose|q: int| 0 <= q < m && s@[j + q] != t@[q];
            assert(s@.subrange(j as int, j + m)[q] != t@[q]);
        }
        if j == n - m {
            assert(first_from(s@, t@, j + 1) is None);
            return None;
        }
        j = j + 1;
    }
    None
}

/// Keeps the earlier of the occurrence found so far and that of `op`.
fn pick_op(s: &str, acc: (Operator, Option<usize>), op: Operator) -> (r: (Operator, Option<usize>))
    ensures
        r.0 == pick(
            s@,
            (
                acc.0,
                match acc.1 {
                    Some(i) => Some(i as int),
                    None => None,
                },
            ),
            op,
        ).0,
        (match r.1 {
            Some(i) => Some(i as int),
            None => None,
        }) == pick(
            s@,
            (
                acc.0,
                match acc.1 {
                    Some(i) => Some(i as int),
                    None => None,
                },
            ),
            op,
        ).1,
{
    let f = find(s, op.text());
    match acc.1 {
        None => (op, f),
        Some(i) => match f {
            Some(k) => if k < i {
                (op, Some(k))
            } else {
                acc
            },
            None => acc,
        },
    }
}

/// `s` split at every space.
fn split_words(s: &str) -> (r: Vec<String>)
    ensures
        texts(r@) == split_spaces(s@),
{
    let n = s.unicode_len();
    let mut words: Vec<String> = Vec::new();
    let mut start: usize = 0;
    let mut i: usize = 0;
    assert(texts(words@) =~= Seq::<Seq<char>>::empty());
    assert(s@.subrange(0, 0) =~= Seq::<char>::empty());
    assert(split_spaces(s@.subrange(0, 0)) =~= texts(words@).push(s@.subrange(0, 0)));
    while i < n
        invariant
            n == s@.len(),
            start <= i <= n,
            split_spaces(s@.subrange(0, i as int)) == texts(words@).push(
                s@.subrange(start as int, i as int),
            ),
        decreases n - i,
    {
        let ghost prev = s@.subrange(0, i as int);
        assert(s@.subrange(0, i + 1).drop_last() =~= prev);
        let ghost before = texts(words@);
        if s.get_char(i) == ' ' {
            words.push(String::from_str(s.substring_char(start, i)));
            assert(texts(words@) =~= before.push(s@.subrange(start as int, i as int)));
            start = i + 1;
            assert(s@.subrange(start as int, i + 1) =~= Seq::<char>::empty());
        } else {
            assert(s@.subrange(start as int, i + 1) =~= s@.subrange(start as int, i as int).push(
                s@[i as int],
            ));
            assert(before.push(s@.subrange(start as int, i as int)).update(
                before.len() as int,
                s@.subrange(start as int, i + 1),
            ) =~= before.push(s@.subrange(start as int, i + 1)));
        }
        i = i + 1;
    }
    let ghost before = texts(words@);
    words.push(String::from_str(s.substring_char(start, n)));
    assert(texts(words@) =~= before.push(s@.subrange(start as int, n as int)));
    assert(s@.subrange(0, n as int) =~= s@);
    words
}

impl ScriptParser {
    /// Parses a script such as `cmd -a x | next y`: the first segment's command and
    /// arguments, chained by the first operator in it to the parse of what follows.
    pub fn from_str(s: &str) -> (r: Result<ScriptParser, ()>)
        ensures
            r matches Ok(p) && parses_as(p, s@),
        decreases s@.len(),
    {
        let (op, index) = pick_op(
            s,
            pick_op(
                s,
                pick_op(s, pick_op(s, (Operator::Terminate, None), Operator::Pipe), Operator::Or),
                Operator::And,
            ),
            Operator::Terminate,
        );
        proof {
            lemma_earliest(s@);
        }
        let n = s.unicode_len();
        let (left, rest) = match index {
            Some(pos) => (s.substring_char(0, pos), s.substring_char(pos + op.text().unicode_len(), n)),
            None => (s, ""),
        };
        proof {
            reveal_strlit("");
        }
        let mut words = split_words(left);
        proof {
            lemma_split_nonempty(left@);
        }
        let ghost all = texts(words@);
        let command = words.remove(0);
        assert(texts(words@) =~= all.subrange(1, all.len() as int));
        let next_segment = if rest.unicode_len() == 0 {
            None
        } else {
            match ScriptParser::from_str(rest) {
                Ok(p) => Some(Box::new(p)),
                Err(()) => return Err(()),
            }
        };
        Ok(ScriptParser { command, args: words, operator: op, next_segment })
    }
}

} // verus!
