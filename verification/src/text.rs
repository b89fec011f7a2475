//! Text on the level of characters.

use vstd::prelude::*;
use vstd::std_specs::iter::IteratorSpec;
use vstd::string::StringExecFns;

verus! {

/// The characters of `s`, in order.
pub fn chars_of(s: &str) -> (v: Vec<char>)
    ensures
        v@ == s@,
{
    broadcast use vstd::string::axiom_spec_iter;
    let mut v: Vec<char> = Vec::new();
    for c in it: s.chars()
        invariant
            it.seq() == s@,
            v@ == it.seq().take(it.index()),
    {
        v.push(c);
    }
    v
}

/// Whether two texts hold the same characters.
pub fn same_text(a: &str, b: &str) -> (same: bool)
    ensures
        same == (a@ == b@),
{
    broadcast use vstd::string::group_string_axioms;
    let mut left = a.chars();
    let mut right = b.chars();
    let ghost mut n: int = 0;
    loop
        invariant
            0 <= n <= a@.len(),
            n <= b@.len(),
            left.remaining() == a@.skip(n),
            right.remaining() == b@.skip(n),
            a@.take(n) == b@.take(n),
        decreases a@.len() - n,
    {
        let x = left.next();
        let y = right.next();
        match (x, y) {
            (Some(p), Some(q)) => {
                if p != q {
                    assert(a@[n] != b@[n]);
                    return false;
                }
                proof {
                    assert(a@.take(n + 1) == a@.take(n).push(a@[n]));
                    assert(b@.take(n + 1) == b@.take(n).push(b@[n]));
                    assert(a@.skip(n).drop_first() == a@.skip(n + 1));
                    assert(b@.skip(n).drop_first() == b@.skip(n + 1));
                    n = n + 1;
                }
            },
            (None, None) => {
                assert(a@ == a@.take(n));
                assert(b@ == b@.take(n));
                return true;
            },
            _ => {
                assert(a@.len() != b@.len());
                return false;
            },
        }
    }
}

/// The character that writes the digit `d`.
pub open spec fn digit(d: nat) -> char {
    if d == 0 {
        '0'
    } else if d == 1 {
        '1'
    } else if d == 2 {
        '2'
    } else if d == 3 {
        '3'
    } else if d == 4 {
        '4'
    } else if d == 5 {
        '5'
    } else if d == 6 {
        '6'
    } else if d == 7 {
        '7'
    } else if d == 8 {
        '8'
    } else {
        '9'
    }
}

/// The number `n` written in base ten, without leading zeros.
pub open spec fn decimal(n: nat) -> Seq<char>
    decreases n,
{
    if n < 10 {
        seq![digit(n)]
    } else {
        decimal(n / 10).push(digit(n % 10))
    }
}

fn digit_text(d: u32) -> (text: &'static str)
    requires
        d < 10,
    ensures
        text@ == seq![digit(d as nat)],
{
    proof {
        reveal_strlit("0");
        reveal_strlit("1");
        reveal_strlit("2");
        reveal_strlit("3");
        reveal_strlit("4");
        reveal_strlit("5");
        reveal_strlit("6");
        reveal_strlit("7");
        reveal_strlit("8");
        reveal_strlit("9");
    }
    let text = if d == 0 {
        "0"
    } else if d == 1 {
        "1"
    } else if d == 2 {
        "2"
    } else if d == 3 {
        "3"
    } else if d == 4 {
        "4"
    } else if d == 5 {
        "5"
    } else if d == 6 {
        "6"
    } else if d == 7 {
        "7"
    } else if d == 8 {
        "8"
    } else {
        "9"
    };
    assert(text@ =~= seq![digit(d as nat)]);
    text
}

/// Writes `n` in base ten.
pub fn to_decimal(n: u32) -> (text: String)
    ensures
        text@ == decimal(n as nat),
    decreases n,
{
    if n < 10 {
        String::from_str(digit_text(n))
    } else {
        let mut text = to_decimal(n / 10);
        text.append(digit_text(n % 10));
        assert(text@ =~= decimal(n as nat));
        text
    }
}

/// The path of `name` under the directory `base`, as paths are joined on Unix: a `name`
/// that starts at the root stands for itself, and a separator is put between the two
/// unless `base` is empty or ends in one.
pub open spec fn joined(base: Seq<char>, name: Seq<char>) -> Seq<char> {
    if name.len() > 0 && name[0] == '/' {
        name
    } else if base.len() == 0 || base.last() == '/' {
        base + name
    } else {
        base + seq!['/'] + name
    }
}

/// The path of `name` under the directory `base`.
pub fn join_path(base: &str, name: &str) -> (path: String)
    ensures
        path@ == joined(base@, name@),
{
    let head = chars_of(base);
    let tail = chars_of(name);
    if tail.len() > 0 && tail[0] == '/' {
        return String::from_str(name);
    }
    let mut path = String::from_str(base);
    if head.len() > 0 && head[head.len() - 1] != '/' {
        proof {
            reveal_strlit("/");
            assert("/"@ =~= seq!['/']);
        }
        path.append("/");
    }
    path.append(name);
    path
}

/// Whether `c` is white space: one of the characters that Unicode marks as
/// `White_Space`.
pub open spec fn is_space(c: char) -> bool {
    let code = c as u32;
    ||| 0x09 <= code <= 0x0D
    ||| code == 0x20
    ||| code == 0x85
    ||| code == 0xA0
    ||| code == 0x1680
    ||| 0x2000 <= code <= 0x200A
    ||| code == 0x2028
    ||| code == 0x2029
    ||| code == 0x202F
    ||| code == 0x205F
    ||| code == 0x3000
}

/// Whether `c` is white space.
pub fn is_space_char(c: char) -> (space: bool)
    ensures
        space == is_space(c),
{
    let code: u32 = c as u32;
    (0x09 <= code && code <= 0x0D) || code == 0x20 || code == 0x85 || code == 0xA0 || code
        == 0x1680 || (0x2000 <= code && code <= 0x200A) || code == 0x2028 || code == 0x2029
        || code == 0x202F || code == 0x205F || code == 0x3000
}

/// How many characters at the start of `s` are white space (where `spaces` holds) or
/// are not (where it does not), up to the first character of the other kind.
pub open spec fn run_len(s: Seq<char>, spaces: bool) -> nat
    decreases s.len(),
{
    if s.len() > 0 && is_space(s[0]) == spaces {
        1 + run_len(s.drop_first(), spaces)
    } else {
        0
    }
}

/// A run is no longer than the text, and ends at the end or before a character of
/// the other kind.
pub proof fn lemma_run_len(s: Seq<char>, spaces: bool)
    ensures
        run_len(s, spaces) <= s.len(),
        run_len(s, spaces) < s.len() ==> is_space(s[run_len(s, spaces) as int]) != spaces,
        forall|i: int| 0 <= i < run_len(s, spaces) ==> is_space(#[trigger] s[i]) == spaces,
    decreases s.len(),
{
    if s.len() > 0 && is_space(s[0]) == spaces {
        lemma_run_len(s.drop_first(), spaces);
        assert forall|i: int| 0 <= i < run_len(s, spaces) implies is_space(#[trigger] s[i])
            == spaces by {
            if i > 0 {
                assert(s[i] == s.drop_first()[i - 1]);
            }
        }
    }
}

/// The words of `s`: the longest stretches without white space, in order.
pub open spec fn words(s: Seq<char>) -> Seq<Seq<char>>
    decreases s.len(),
    via words_decreases
{
    let rest = s.skip(run_len(s, true) as int);
    if rest.len() == 0 {
        Seq::empty()
    } else {
        let n = run_len(rest, false) as int;
        seq![rest.take(n)] + words(rest.skip(n))
    }
}

#[via_fn]
proof fn words_decreases(s: Seq<char>) {
    lemma_run_len(s, true);
    let rest = s.skip(run_len(s, true) as int);
    if rest.len() > 0 {
        lemma_run_len(rest, false);
        assert(rest[0] == s[run_len(s, true) as int]);
        assert(run_len(rest, false) > 0);
    }
}

/// How many characters stand before the first line feed of `s`, or in all of `s`
/// where it holds none.
pub open spec fn line_len(s: Seq<char>) -> nat
    decreases s.len(),
{
    if s.len() > 0 && s[0] != '\n' {
        1 + line_len(s.drop_first())
    } else {
        0
    }
}

/// A line is no longer than the text, holds no line feed, and ends at the end of the
/// text or before a line feed.
pub proof fn lemma_line_len(s: Seq<char>)
    ensures
        line_len(s) <= s.len(),
        line_len(s) < s.len() ==> s[line_len(s) as int] == '\n',
        forall|i: int| 0 <= i < line_len(s) ==> #[trigger] s[i] != '\n',
    decreases s.len(),
{
    if s.len() > 0 && s[0] != '\n' {
        lemma_line_len(s.drop_first());
        assert forall|i: int| 0 <= i < line_len(s) implies #[trigger] s[i] != '\n' by {
            if i > 0 {
                assert(s[i] == s.drop_first()[i - 1]);
            }
        }
    }
}

/// The lines of `s`: what stands between its line feeds. A line feed at the very end
/// closes the last line and opens no further one. A carriage return before a line feed
/// stays in its line.
pub open spec fn lines(s: Seq<char>) -> Seq<Seq<char>>
    decreases s.len(),
    via lines_decreases
{
    if s.len() == 0 {
        Seq::empty()
    } else {
        let n = line_len(s) as int;
        if n == s.len() {
            seq![s]
        } else {
            seq![s.take(n)] + lines(s.skip(n + 1))
        }
    }
}

#[via_fn]
proof fn lines_decreases(s: Seq<char>) {
    lemma_line_len(s);
}

/// Whether `token` occurs in `s`.
pub open spec fn contains(s: Seq<char>, token: Seq<char>) -> bool {
    exists|i: int| occurs_at(s, token, i)
}

/// Whether `token` stands in `s` from place `i` on.
pub open spec fn occurs_at(s: Seq<char>, token: Seq<char>, i: int) -> bool {
    0 <= i <= s.len() - token.len() && s.subrange(i, i + token.len()) == token
}

/// The end of the run of one kind of character that starts at `from`.
pub(crate) fn run_end(chars: &Vec<char>, from: usize, spaces: bool) -> (to: usize)
    requires
        from <= chars@.len(),
    ensures
        to == from + run_len(chars@.skip(from as int), spaces),
        from <= to <= chars@.len(),
{
    let mut to = from;
    proof {
        lemma_run_len(chars@.skip(from as int), spaces);
    }
    while to < chars.len() && is_space_char(chars[to]) == spaces
        invariant
            from <= to <= chars@.len(),
            run_len(chars@.skip(from as int), spaces) == (to - from) + run_len(
                chars@.skip(to as int),
                spaces,
            ),
        decreases chars@.len() - to,
    {
        assert(chars@.skip(to as int).drop_first() =~= chars@.skip(to + 1));
        to += 1;
    }
    to
}

/// The end of the line that starts at `from`.
pub(crate) fn line_end(chars: &Vec<char>, from: usize) -> (to: usize)
    requires
        from <= chars@.len(),
    ensures
        to == from + line_len(chars@.skip(from as int)),
        from <= to <= chars@.len(),
{
    let mut to = from;
    proof {
        lemma_line_len(chars@.skip(from as int));
    }
    while to < chars.len() && chars[to] != '\n'
        invariant
            from <= to <= chars@.len(),
            line_len(chars@.skip(from as int)) == (to - from) + line_len(chars@.skip(to as int)),
        decreases chars@.len() - to,
    {
        assert(chars@.skip(to as int).drop_first() =~= chars@.skip(to + 1));
        to += 1;
    }
    to
}

/// Whether `token` occurs in `chars`.
pub(crate) fn holds_token(chars: &Vec<char>, token: &Vec<char>) -> (found: bool)
    ensures
        found == contains(chars@, token@),
{
    if token.len() > chars.len() {
        return false;
    }
    let last: usize = chars.len() - token.len();
    let mut i: usize = 0;
    while i <= last
        invariant
            i <= last + 1,
            last + token@.len() == chars@.len() <= usize::MAX,
            forall|j: int| 0 <= j < i ==> !occurs_at(chars@, token@, j),
        decreases last + 1 - i,
    {
        let mut k: usize = 0;
        while k < token.len() && chars[i + k] == token[k]
            invariant
                i <= last,
                last + token@.len() == chars@.len() <= usize::MAX,
                k <= token@.len(),
                forall|j: int| 0 <= j < k ==> chars@[i + j] == token@[j],
            decreases token@.len() - k,
        {
            k += 1;
        }
        if k == token.len() {
            assert(chars@.subrange(i as int, i + token@.len()) =~= token@);
            assert(occurs_at(chars@, token@, i as int));
            return true;
        }
        assert(!occurs_at(chars@, token@, i as int)) by {
            if occurs_at(chars@, token@, i as int) {
                assert(chars@.subrange(i as int, i + token@.len())[k as int] == token@[k as int]);
            }
        }
        i += 1;
    }
    false
}

} // verus!
