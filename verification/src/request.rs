//! The request-line reader: from the raw text of a request, the method and
//! the path — the first two whitespace-separated tokens of the first line.

use vstd::prelude::*;
use vstd::string::StrSliceExecFns;

verus! {

/// The characters that end a token of the request line.
pub open spec fn is_space(c: char) -> bool {
    c == ' ' || c == '\t' || c == '\r' || c == '\n' || c == '\u{b}' || c == '\u{c}'
}

/// The number of characters before the first line feed (all of `s` if
/// there is none).
pub open spec fn line_len(s: Seq<char>) -> int
    decreases s.len(),
{
    if s.len() == 0 {
        0
    } else if s[0] == '\n' {
        0
    } else {
        1 + line_len(s.drop_first())
    }
}

/// The first line of the text: everything before the first line feed.
pub open spec fn first_line(s: Seq<char>) -> Seq<char> {
    s.take(line_len(s))
}

/// `s` without its leading whitespace.
pub open spec fn skip_spaces(s: Seq<char>) -> Seq<char>
    decreases s.len(),
{
    if s.len() > 0 && is_space(s[0]) {
        skip_spaces(s.drop_first())
    } else {
        s
    }
}

/// The token at the head of `s`: its characters up to the first whitespace.
pub open spec fn take_token(s: Seq<char>) -> Seq<char>
    decreases s.len(),
{
    if s.len() > 0 && !is_space(s[0]) {
        seq![s[0]] + take_token(s.drop_first())
    } else {
        Seq::empty()
    }
}

/// `s` without the token at its head.
pub open spec fn drop_token(s: Seq<char>) -> Seq<char>
    decreases s.len(),
{
    if s.len() > 0 && !is_space(s[0]) {
        drop_token(s.drop_first())
    } else {
        s
    }
}

/// The method of a request line: its first token.
pub open spec fn method_of(line: Seq<char>) -> Seq<char> {
    take_token(skip_spaces(line))
}

/// The path of a request line: its second token.
pub open spec fn path_of(line: Seq<char>) -> Seq<char> {
    take_token(skip_spaces(drop_token(skip_spaces(line))))
}

/// The request line carries both a method and a path.
pub open spec fn has_method_and_path(line: Seq<char>) -> bool {
    method_of(line).len() > 0 && path_of(line).len() > 0
}

/// `line_len` is the position of the first line feed: no earlier character
/// is one, and the text ends or has one there.
proof fn lemma_line_len_at(s: Seq<char>, k: int)
    requires
        0 <= k <= s.len(),
        forall|j: int| 0 <= j < k ==> s[j] != '\n',
        k == s.len() || s[k] == '\n',
    ensures
        line_len(s) == k,
    decreases k,
{
    if k > 0 {
        lemma_line_len_at(s.drop_first(), k - 1);
    }
}

/// When the first `k` characters are whitespace and the next (if any) is
/// not, skipping leading whitespace is dropping exactly `k` characters.
proof fn lemma_skip_spaces_at(s: Seq<char>, k: int)
    requires
        0 <= k <= s.len(),
        forall|j: int| 0 <= j < k ==> is_space(s[j]),
        k == s.len() || !is_space(s[k]),
    ensures
        skip_spaces(s) == s.skip(k),
    decreases k,
{
    if k == 0 {
        assert(s.skip(0) =~= s);
    } else {
        lemma_skip_spaces_at(s.drop_first(), k - 1);
        assert(s.drop_first().skip(k - 1) =~= s.skip(k));
    }
}

/// When the first `k` characters are not whitespace and the next (if any)
/// is, the head token is exactly those `k` characters and dropping it
/// drops exactly them.
proof fn lemma_token_at(s: Seq<char>, k: int)
    requires
        0 <= k <= s.len(),
        forall|j: int| 0 <= j < k ==> !is_space(s[j]),
        k == s.len() || is_space(s[k]),
    ensures
        take_token(s) == s.take(k),
        drop_token(s) == s.skip(k),
    decreases k,
{
    if k == 0 {
        assert(s.take(0) =~= Seq::<char>::empty());
        assert(s.skip(0) =~= s);
    } else {
        lemma_token_at(s.drop_first(), k - 1);
        assert(seq![s[0]] + s.drop_first().take(k - 1) =~= s.take(k));
        assert(s.drop_first().skip(k - 1) =~= s.skip(k));
    }
}

/// Whether `c` ends a token of the request line.
pub fn is_space_char(c: char) -> (r: bool)
    ensures
        r == is_space(c),
{
    c == ' ' || c == '\t' || c == '\r' || c == '\n' || c == '\u{b}' || c == '\u{c}'
}

/// Read the method and the path out of the raw text of a request: the
/// first two whitespace-separated tokens of its first line, in that order.
/// The text must be nonempty and its first line must carry both tokens;
/// anything else is a malformed request and is not accepted here.
pub fn parse_request(request: String) -> (r: Vec<String>)
    requires
        request@.len() > 0,
        has_method_and_path(first_line(request@)),
    ensures
        r@.len() == 2,
        r@[0]@ == method_of(first_line(request@)),
        r@[1]@ == path_of(first_line(request@)),
{
    let s = request.as_str();
    let len = s.unicode_len();

    // the first line: everything before the first line feed
    let mut n: usize = 0;
    while n < len && s.get_char(n) != '\n'
        invariant
            n <= len,
            len == s@.len(),
            forall|j: int| 0 <= j < n ==> s@[j] != '\n',
        decreases len - n,
    {
        n = n + 1;
    }
    proof {
        lemma_line_len_at(s@, n as int);
        assert(s@.subrange(0, n as int) =~= first_line(s@));
    }
    let line = s.substring_char(0, n);

    // leading whitespace ends at a
    let mut a: usize = 0;
    while a < n && is_space_char(line.get_char(a))
        invariant
            a <= n,
            n == line@.len(),
            forall|j: int| 0 <= j < a ==> is_space(line@[j]),
        decreases n - a,
    {
        a = a + 1;
    }
    proof {
        lemma_skip_spaces_at(line@, a as int);
    }

    // the method runs to the next whitespace
    let mut b: usize = a;
    while b < n && !is_space_char(line.get_char(b))
        invariant
            a <= b <= n,
            n == line@.len(),
            forall|j: int| a <= j < b ==> !is_space(line@[j]),
        decreases n - b,
    {
        b = b + 1;
    }
    proof {
        assert forall|j: int| 0 <= j < b - a implies !is_space(line@.skip(a as int)[j]) by {
            assert(line@.skip(a as int)[j] == line@[a + j]);
        }
        lemma_token_at(line@.skip(a as int), b - a);
        assert(line@.skip(a as int).take(b - a) =~= line@.subrange(a as int, b as int));
        assert(line@.skip(a as int).skip(b - a) =~= line@.skip(b as int));
    }
    let method = line.substring_char(a, b).to_owned();

    // whitespace between the tokens ends at c
    let mut c: usize = b;
    while c < n && is_space_char(line.get_char(c))
        invariant
            b <= c <= n,
            n == line@.len(),
            forall|j: int| b <= j < c ==> is_space(line@[j]),
        decreases n - c,
    {
        c = c + 1;
    }
    proof {
        assert forall|j: int| 0 <= j < c - b implies is_space(line@.skip(b as int)[j]) by {
            assert(line@.skip(b as int)[j] == line@[b + j]);
        }
        lemma_skip_spaces_at(line@.skip(b as int), c - b);
        assert(line@.skip(b as int).skip(c - b) =~= line@.skip(c as int));
    }

    // the path runs to the whitespace after that
    let mut d: usize = c;
    while d < n && !is_space_char(line.get_char(d))
        invariant
            c <= d <= n,
            n == line@.len(),
            forall|j: int| c <= j < d ==> !is_space(line@[j]),
        decreases n - d,
    {
        d = d + 1;
    }
    proof {
        assert forall|j: int| 0 <= j < d - c implies !is_space(line@.skip(c as int)[j]) by {
            assert(line@.skip(c as int)[j] == line@[c + j]);
        }
        lemma_token_at(line@.skip(c as int), d - c);
        assert(line@.skip(c as int).take(d - c) =~= line@.subrange(c as int, d as int));
    }
    let path = line.substring_char(c, d).to_owned();

    let mut r: Vec<String> = Vec::new();
    r.push(method);
    r.push(path);
    r
}

} // verus!
