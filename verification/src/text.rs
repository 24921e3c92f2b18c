//! Text helpers of the line protocol: where the command token ends, what
//! trimming removes, and how an address is cut out of an argument.

use vstd::prelude::*;
use vstd::string::*;

verus! {

/// The characters that carry Unicode's White_Space property.
pub open spec fn is_white_space(c: char) -> bool {
    let n = c as u32;
    ||| 0x09 <= n <= 0x0D
    ||| n == 0x20
    ||| n == 0x85
    ||| n == 0xA0
    ||| n == 0x1680
    ||| 0x2000 <= n <= 0x200A
    ||| n == 0x2028
    ||| n == 0x2029
    ||| n == 0x202F
    ||| n == 0x205F
    ||| n == 0x3000
}

/// Whether `c` is Unicode whitespace.
pub fn is_whitespace(c: char) -> (r: bool)
    ensures
        r == is_white_space(c),
{
    let n: u32 = c as u32;
    (0x09 <= n && n <= 0x0D) || n == 0x20 || n == 0x85 || n == 0xA0 || n == 0x1680 || (0x2000 <= n
        && n <= 0x200A) || n == 0x2028 || n == 0x2029 || n == 0x202F || n == 0x205F || n == 0x3000
}

/// A class of characters that a trimming pass removes from both ends.
pub enum Strip {
    /// Unicode whitespace.
    Whitespace,
    /// The two angle brackets, `<` and `>`.
    AngleBrackets,
}

impl Strip {
    /// Whether `c` belongs to the class.
    pub open spec fn matches(self, c: char) -> bool {
        match self {
            Strip::Whitespace => is_white_space(c),
            Strip::AngleBrackets => c == '<' || c == '>',
        }
    }

    /// Whether `c` belongs to the class.
    pub fn holds(&self, c: char) -> (r: bool)
        ensures
            r == self.matches(c),
    {
        match self {
            Strip::Whitespace => is_whitespace(c),
            Strip::AngleBrackets => c == '<' || c == '>',
        }
    }
}

/// `s` without its longest prefix of characters of the class.
pub open spec fn drop_leading(s: Seq<char>, what: Strip) -> Seq<char>
    decreases s.len(),
{
    if s.len() > 0 && what.matches(s[0]) {
        drop_leading(s.skip(1), what)
    } else {
        s
    }
}

/// `s` without its longest suffix of characters of the class.
pub open spec fn drop_trailing(s: Seq<char>, what: Strip) -> Seq<char>
    decreases s.len(),
{
    if s.len() > 0 && what.matches(s.last()) {
        drop_trailing(s.drop_last(), what)
    } else {
        s
    }
}

/// `s` with the characters of the class removed from both ends.
pub open spec fn trimmed(s: Seq<char>, what: Strip) -> Seq<char> {
    drop_trailing(drop_leading(s, what), what)
}

/// The number of characters before the first space of `s`, or the length of
/// `s` where it holds no space.
pub open spec fn token_len(s: Seq<char>) -> nat
    decreases s.len(),
{
    if s.len() == 0 || s[0] == ' ' {
        0
    } else {
        1 + token_len(s.skip(1))
    }
}

/// `s` with every leading repetition of `p` removed.
pub open spec fn drop_prefixes(s: Seq<char>, p: Seq<char>) -> Seq<char>
    decreases s.len(),
{
    if p.len() > 0 && p.is_prefix_of(s) {
        drop_prefixes(s.skip(p.len() as int), p)
    } else {
        s
    }
}

/// The address in a lowercased argument that begins with `keyword`: the
/// keyword goes, then whitespace, angle brackets, and whitespace again.
pub open spec fn address_of(lower: Seq<char>, keyword: Seq<char>) -> Seq<char> {
    trimmed(
        trimmed(trimmed(drop_prefixes(lower, keyword), Strip::Whitespace), Strip::AngleBrackets),
        Strip::Whitespace,
    )
}

/// What `str::to_uppercase` gives for a text.
pub uninterp spec fn uppercase_of(s: Seq<char>) -> Seq<char>;

/// What `str::to_lowercase` gives for a text.
pub uninterp spec fn lowercase_of(s: Seq<char>) -> Seq<char>;

/// Calls `str::to_uppercase`. Trusted: the result is the Unicode uppercase
/// form of `s`, a function of the characters of `s` alone, known here only by
/// its name `uppercase_of`.
#[verifier::external_body]
pub(crate) fn to_upper(s: &str) -> (r: String)
    ensures
        r@ == uppercase_of(s@),
{
    s.to_uppercase()
}

/// Calls `str::to_lowercase`. Trusted: the result is the Unicode lowercase
/// form of `s`, a function of the characters of `s` alone, known here only by
/// its name `lowercase_of`.
#[verifier::external_body]
pub(crate) fn to_lower(s: &str) -> (r: String)
    ensures
        r@ == lowercase_of(s@),
{
    s.to_lowercase()
}

/// `token_len` is the place of the first space: no space stands before it,
/// and where it is not the end of `s`, a space stands there.
pub proof fn lemma_token_len(s: Seq<char>)
    ensures
        token_len(s) <= s.len(),
        forall|i: int| 0 <= i < token_len(s) ==> s[i] != ' ',
        token_len(s) < s.len() ==> s[token_len(s) as int] == ' ',
    decreases s.len(),
{
    if s.len() == 0 || s[0] == ' ' {
    } else {
        lemma_token_len(s.skip(1));
        let t = s.skip(1);
        assert forall|i: int| 0 <= i < token_len(s) implies s[i] != ' ' by {
            if i > 0 {
                assert(t[i - 1] == s[i]);
            }
        }
        if token_len(s) < s.len() {
            assert(t[token_len(t) as int] == s[token_len(s) as int]);
        }
    }
}

/// The length of the command token of `line`.
pub fn token_length(line: &str) -> (n: usize)
    ensures
        n == token_len(line@),
        n <= line@.len(),
{
    let len: usize = line.unicode_len();
    let mut i: usize = 0;
    proof {
        assert(line@.skip(0) =~= line@);
    }
    while i < len && line.get_char(i) != ' '
        invariant
            i <= len,
            len == line@.len(),
            token_len(line@) == i + token_len(line@.skip(i as int)),
        decreases len - i,
    {
        proof {
            assert(line@.skip(i as int).skip(1) =~= line@.skip(i + 1));
            assert(line@.skip(i as int)[0] == line@[i as int]);
        }
        i += 1;
    }
    proof {
        if i < len {
            assert(line@.skip(i as int)[0] == line@[i as int]);
        }
        lemma_token_len(line@);
    }
    i
}

/// `s` with the characters of the class removed from both ends.
pub fn trim<'a>(s: &'a str, what: Strip) -> (r: &'a str)
    ensures
        r@ == trimmed(s@, what),
{
    let len: usize = s.unicode_len();
    let mut i: usize = 0;
    proof {
        assert(s@.skip(0) =~= s@);
    }
    while i < len && what.holds(s.get_char(i))
        invariant
            i <= len,
            len == s@.len(),
            drop_leading(s@, what) == drop_leading(s@.skip(i as int), what),
        decreases len - i,
    {
        proof {
            assert(s@.skip(i as int).skip(1) =~= s@.skip(i + 1));
            assert(s@.skip(i as int)[0] == s@[i as int]);
        }
        i += 1;
    }
    proof {
        if i < len {
            assert(s@.skip(i as int)[0] == s@[i as int]);
        }
        assert(s@.skip(i as int) =~= s@.subrange(i as int, len as int));
    }
    let mut j: usize = len;
    while j > i && what.holds(s.get_char(j - 1))
        invariant
            i <= j <= len,
            len == s@.len(),
            trimmed(s@, what) == drop_trailing(s@.subrange(i as int, j as int), what),
        decreases j,
    {
        proof {
            assert(s@.subrange(i as int, j as int).drop_last() =~= s@.subrange(i as int, j - 1));
            assert(s@.subrange(i as int, j as int).last() == s@[j - 1]);
        }
        j -= 1;
    }
    proof {
        if j > i {
            assert(s@.subrange(i as int, j as int).last() == s@[j - 1]);
        }
    }
    s.substring_char(i, j)
}

/// Whether `p` stands in `s` at the character position `pos`. No text stands
/// at a position beyond the end of `s`.
pub fn starts_with_at(s: &str, pos: usize, p: &str) -> (r: bool)
    ensures
        r == (pos <= s@.len() && p@.is_prefix_of(s@.skip(pos as int))),
{
    let slen: usize = s.unicode_len();
    let plen: usize = p.unicode_len();
    if pos > slen || plen > slen - pos {
        return false;
    }
    let mut k: usize = 0;
    while k < plen
        invariant
            k <= plen,
            plen == p@.len(),
            slen == s@.len(),
            pos <= slen,
            plen <= slen - pos,
            forall|j: int| 0 <= j < k ==> p@[j] == s@[pos + j],
        decreases plen - k,
    {
        if p.get_char(k) != s.get_char(pos + k) {
            proof {
                assert(s@.skip(pos as int).subrange(0, plen as int)[k as int] == s@[pos + k]);
            }
            return false;
        }
        k += 1;
    }
    proof {
        assert(p@ =~= s@.skip(pos as int).subrange(0, plen as int));
    }
    true
}

/// Whether the two texts hold the same characters.
pub fn same_text(a: &str, b: &str) -> (r: bool)
    ensures
        r == (a@ == b@),
{
    let eq = a.unicode_len() == b.unicode_len() && starts_with_at(a, 0, b);
    proof {
        assert(a@.skip(0) =~= a@);
        if eq {
            assert(a@.subrange(0, b@.len() as int) =~= a@);
        }
    }
    eq
}

/// `s` with every leading repetition of `p` removed.
pub fn strip_prefixes<'a>(s: &'a str, p: &str) -> (r: &'a str)
    ensures
        r@ == drop_prefixes(s@, p@),
{
    let len: usize = s.unicode_len();
    let plen: usize = p.unicode_len();
    if plen == 0 {
        return s;
    }
    let mut pos: usize = 0;
    proof {
        assert(s@.skip(0) =~= s@);
    }
    while starts_with_at(s, pos, p)
        invariant
            pos <= len,
            len == s@.len(),
            plen == p@.len(),
            plen > 0,
            drop_prefixes(s@, p@) == drop_prefixes(s@.skip(pos as int), p@),
        decreases len - pos,
    {
        proof {
            assert(s@.skip(pos as int).skip(plen as int) =~= s@.skip(pos + plen));
        }
        pos += plen;
    }
    proof {
        assert(s@.skip(pos as int) =~= s@.subrange(pos as int, len as int));
    }
    s.substring_char(pos, len)
}

/// Cuts the address out of a lowercased argument that begins with `keyword`.
pub fn address(lower: &str, keyword: &str) -> (r: String)
    ensures
        r@ == address_of(lower@, keyword@),
{
    let rest = trim(strip_prefixes(lower, keyword), Strip::Whitespace);
    String::from_str(trim(trim(rest, Strip::AngleBrackets), Strip::Whitespace))
}

} // verus!
