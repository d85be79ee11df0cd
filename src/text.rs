//! Text views of what travels over a connection.
use vstd::prelude::*;

verus! {

/// Characters with the Unicode `White_Space` property.
pub open spec fn is_white_space(c: char) -> bool {
    let u = c as u32;
    ||| 0x09 <= u <= 0x0D
    ||| u == 0x20
    ||| u == 0x85
    ||| u == 0xA0
    ||| u == 0x1680
    ||| 0x2000 <= u <= 0x200A
    ||| u == 0x2028
    ||| u == 0x2029
    ||| u == 0x202F
    ||| u == 0x205F
    ||| u == 0x3000
}

/// `t` is `s[i..j]`, where everything outside `i..j` is white space and the
/// kept part neither starts nor ends with white space.
pub open spec fn is_trim_at(t: Seq<char>, s: Seq<char>, i: int, j: int) -> bool {
    &&& 0 <= i <= j <= s.len()
    &&& t == s.subrange(i, j)
    &&& forall|k: int| 0 <= k < i ==> is_white_space(#[trigger] s[k])
    &&& forall|k: int| j <= k < s.len() ==> is_white_space(#[trigger] s[k])
    &&& i < j ==> !is_white_space(s[i]) && !is_white_space(s[j - 1])
}

/// `t` is `s` with its leading and trailing white space removed.
pub open spec fn is_trim_of(t: Seq<char>, s: Seq<char>) -> bool {
    exists|i: int, j: int| is_trim_at(t, s, i, j)
}

/// The line that asks the client to disconnect.
pub open spec fn disconnect_command() -> Seq<char> {
    seq!['x', '!']
}

/// A line is the disconnect command once its surrounding white space is gone.
pub open spec fn is_disconnect_line(line: Seq<char>) -> bool {
    is_trim_of(disconnect_command(), line)
}

/// What `String::from_utf8_lossy` makes of a byte sequence.
pub uninterp spec fn utf8_lossy(b: Seq<u8>) -> Seq<char>;

/// A sequence has exactly one trimmed form.
pub proof fn lemma_trim_unique(t: Seq<char>, u: Seq<char>, s: Seq<char>)
    requires
        is_trim_of(t, s),
        is_trim_of(u, s),
    ensures
        t == u,
{
    let (i1, j1) = choose|i: int, j: int| is_trim_at(t, s, i, j);
    let (i2, j2) = choose|i: int, j: int| is_trim_at(u, s, i, j);
    if i1 < j1 && i2 < j2 {
        if i1 < i2 {
            assert(is_white_space(s[i1]));
        }
        if i2 < i1 {
            assert(is_white_space(s[i2]));
        }
        if j1 < j2 {
            assert(is_white_space(s[j2 - 1]));
        }
        if j2 < j1 {
            assert(is_white_space(s[j1 - 1]));
        }
    } else if i1 < j1 {
        assert(is_white_space(s[i1]));
    } else if i2 < j2 {
        assert(is_white_space(s[i2]));
    } else {
        assert(t =~= u);
    }
}

/// Relies on `str::trim`: the slice without leading and trailing characters
/// that have the `White_Space` property.
#[verifier::external_body]
fn trim(s: &str) -> (r: &str)
    ensures
        is_trim_of(r@, s@),
{
    s.trim()
}

/// Relies on `String::from_utf8_lossy`: the text depends on the bytes alone
/// (invalid sequences become replacement characters).
#[verifier::external_body]
fn decode_lossy(b: &[u8]) -> (r: String)
    ensures
        r@ == utf8_lossy(b@),
{
    String::from_utf8_lossy(b).into_owned()
}

/// Whether `line`, trimmed, is the disconnect command `x!` (case-sensitive).
pub fn is_disconnect_command(line: &str) -> (r: bool)
    ensures
        r == is_disconnect_line(line@),
{
    let t = trim(line);
    let n = t.unicode_len();
    let r = n == 2 && t.get_char(0) == 'x' && t.get_char(1) == '!';
    proof {
        if r {
            assert(t@ =~= disconnect_command());
        } else if is_disconnect_line(line@) {
            lemma_trim_unique(t@, disconnect_command(), line@);
        }
    }
    r
}

/// The printable form of a received chunk: decoded leniently, then trimmed.
pub fn chunk_text(chunk: &[u8]) -> (r: String)
    ensures
        is_trim_of(r@, utf8_lossy(chunk@)),
{
    let decoded = decode_lossy(chunk);
    let t = trim(decoded.as_str());
    String::from_str(t)
}

} // verus!
