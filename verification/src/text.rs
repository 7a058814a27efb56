//! Text extraction helpers: lossy UTF-8 decoding of source byte ranges,
//! quote stripping for string literals, and joining of parser messages.

use vstd::prelude::*;
use vstd::slice::slice_subrange;
use vstd::string::StrSliceExecFns;
use vstd::string::StringExecFns;

verus! {

/// The character sequence that lossy UTF-8 decoding yields for the given
/// bytes: valid sequences decode as themselves, invalid ones are replaced.
/// The result depends on the bytes alone.
pub uninterp spec fn lossy_utf8(bytes: Seq<u8>) -> Seq<char>;

/// Relies on String::from_utf8_lossy: decodes the bytes as UTF-8,
/// replacing invalid sequences with the replacement character, never
/// failing; the result depends on the bytes alone.
#[verifier::external_body]
fn utf8_lossy(bytes: &[u8]) -> (s: String)
    ensures
        s@ == lossy_utf8(bytes@),
{
    String::from_utf8_lossy(bytes).into_owned()
}

/// True iff the text begins and ends with a matching pair of quote
/// characters, both double quotes or both single quotes.
pub open spec fn has_outer_quotes(s: Seq<char>) -> bool {
    s.len() >= 2 && s[0] == s[s.len() - 1] && (s[0] == '"' || s[0] == '\'')
}

/// The text with a matching pair of outer quotes stripped, exactly one
/// character from each end; any other text is returned unchanged.
pub open spec fn strip_quotes(s: Seq<char>) -> Seq<char> {
    if has_outer_quotes(s) {
        s.subrange(1, s.len() - 1)
    } else {
        s
    }
}

/// The lossy decoding of `source[start..end)`, the literal text of a span.
pub open spec fn span_text(source: Seq<u8>, start: int, end: int) -> Seq<char> {
    lossy_utf8(source.subrange(start, end))
}

/// Decodes the byte range `[start, end)` of the source buffer.
pub(crate) fn decode_span(source: &Vec<u8>, start: usize, end: usize) -> (s: String)
    requires
        start <= end <= source@.len(),
    ensures
        s@ == span_text(source@, start as int, end as int),
{
    let bytes = slice_subrange(source.as_slice(), start, end);
    utf8_lossy(bytes)
}

/// Strips a matching pair of outer quotes from the text, if there is one.
pub(crate) fn strip_outer_quotes(s: &str) -> (r: String)
    ensures
        r@ == strip_quotes(s@),
{
    let n = s.unicode_len();
    if n >= 2 {
        let first = s.get_char(0);
        let last = s.get_char(n - 1);
        if first == last && (first == '"' || first == '\'') {
            let inner = s.substring_char(1, n - 1);
            return inner.to_owned();
        }
    }
    s.to_owned()
}

/// The parser messages joined into one text, one message per line.
pub open spec fn joined_msgs(msgs: Seq<Seq<char>>) -> Seq<char>
    decreases msgs.len(),
{
    if msgs.len() == 0 {
        Seq::empty()
    } else if msgs.len() == 1 {
        msgs[0]
    } else {
        joined_msgs(msgs.drop_last()) + seq!['\n'] + msgs.last()
    }
}

/// Joins the messages with a newline between each adjacent pair.
pub(crate) fn join_lines(msgs: &Vec<String>) -> (r: String)
    ensures
        r@ == joined_msgs(msgs@.map_values(|m: String| m@)),
{
    let ghost views = msgs@.map_values(|m: String| m@);
    let mut r = String::new();
    let mut i: usize = 0;
    while i < msgs.len()
        invariant
            i <= msgs@.len(),
            views == msgs@.map_values(|m: String| m@),
            r@ == joined_msgs(views.take(i as int)),
        decreases msgs@.len() - i,
    {
        if i > 0 {
            r.append("\n");
        }
        r.append(msgs[i].as_str());
        proof {
            reveal_strlit("\n");
            assert(views.take(i + 1).drop_last() =~= views.take(i as int));
            assert(views.take(i + 1).last() == views[i as int]);
            if i == 0 {
                assert(r@ =~= joined_msgs(views.take(i + 1)));
            } else {
                assert(r@ =~= joined_msgs(views.take(i as int)) + seq!['\n'] + views[i as int]);
            }
        }
        i += 1;
    }
    proof {
        assert(views.take(msgs@.len() as int) =~= views);
    }
    r
}

} // verus!
