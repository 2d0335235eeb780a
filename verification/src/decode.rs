//! Decoding a bulk identifier list out of a transport string: everything
//! after the first `=` is percent-decoded and split on commas.

use vstd::prelude::*;

use crate::errors::DecodeError;
use crate::text::{
    find_char, lemma_find_char_at, lemma_find_char_none, lemma_split_on_len, split_on_spec,
};

verus! {

/// What `urlencoding::decode` yields on `s`: the string with its
/// percent-escapes decoded, or nothing when the decoded bytes are not valid
/// text. The result depends on `s` alone.
pub uninterp spec fn percent_decoded(s: Seq<char>) -> Option<Seq<char>>;

/// Relies on `urlencoding::decode`: decodes `%xx` escapes assuming UTF-8 and
/// fails only when the decoded bytes are not valid UTF-8; a string without
/// `%` is returned unchanged.
#[verifier::external_body]
fn percent_decode(s: &str) -> (r: Option<String>)
    ensures
        r is Some <==> percent_decoded(s@) is Some,
        r is Some ==> r->0@ == percent_decoded(s@)->0,
        !s@.contains('%') ==> r is Some && r->0@ == s@,
{
    match urlencoding::decode(s) {
        Ok(decoded) => Some(decoded.into_owned()),
        Err(_) => None,
    }
}

/// Splits `s` into the segments between occurrences of `sep`, verbatim; a
/// string without `sep` yields one segment, and the empty string one empty
/// segment.
pub fn split_all(s: &str, sep: char) -> (r: Vec<String>)
    ensures
        r.deep_view() == split_on_spec(s@, sep),
{
    let n = s.unicode_len();
    let mut r: Vec<String> = Vec::new();
    let mut seg_start: usize = 0;
    let mut i: usize = 0;
    proof {
        assert(s@.subrange(0, 0) =~= Seq::<char>::empty());
        assert(split_on_spec(s@.subrange(0, 0), sep) =~~= r.deep_view().push(s@.subrange(0, 0)));
    }
    while i < n
        invariant
            seg_start <= i <= n,
            n == s@.len(),
            split_on_spec(s@.subrange(0, i as int), sep) == r.deep_view().push(
                s@.subrange(seg_start as int, i as int),
            ),
        decreases n - i,
    {
        proof {
            let pre = s@.subrange(0, i + 1);
            assert(pre.drop_last() =~= s@.subrange(0, i as int));
            assert(pre.last() == s@[i as int]);
            lemma_split_on_len(s@.subrange(0, i as int), sep);
        }
        if s.get_char(i) == sep {
            let seg = s.substring_char(seg_start, i).to_owned();
            r.push(seg);
            seg_start = i + 1;
            proof {
                assert(s@.subrange(seg_start as int, i + 1) =~= Seq::<char>::empty());
                assert(split_on_spec(s@.subrange(0, i + 1), sep) =~~= r.deep_view().push(
                    s@.subrange(seg_start as int, i + 1),
                ));
            }
        } else {
            proof {
                assert(s@.subrange(seg_start as int, i as int).push(s@[i as int]) =~= s@.subrange(
                    seg_start as int,
                    i + 1,
                ));
                assert(split_on_spec(s@.subrange(0, i + 1), sep) =~~= r.deep_view().push(
                    s@.subrange(seg_start as int, i + 1),
                ));
            }
        }
        i += 1;
    }
    let last = s.substring_char(seg_start, n).to_owned();
    r.push(last);
    proof {
        assert(s@.subrange(0, n as int) =~= s@);
        assert(r.deep_view() =~~= split_on_spec(s@, sep));
    }
    r
}

/// Extracts the comma-separated identifier list from a transport string.
///
/// The value is everything after the first `=`; it is percent-decoded and
/// then split on commas, with the segments returned verbatim. Without an `=`
/// the decode fails with [`DecodeError::MissingValue`]; when the value does
/// not percent-decode it fails with [`DecodeError::InvalidEscape`].
pub fn decode_multi(multi: &str) -> (r: Result<Vec<String>, DecodeError>)
    ensures
        ({
            let eq = find_char(multi@, '=');
            let value = multi@.subrange(eq + 1, multi@.len() as int);
            match r {
                Ok(players) => eq >= 0 && percent_decoded(value) is Some && players.deep_view()
                    == split_on_spec(percent_decoded(value)->0, ','),
                Err(DecodeError::MissingValue) => eq < 0,
                Err(DecodeError::InvalidEscape) => eq >= 0 && percent_decoded(value) is None,
            }
        }),
        ({
            let eq = find_char(multi@, '=');
            let value = multi@.subrange(eq + 1, multi@.len() as int);
            eq >= 0 && !value.contains('%') ==> r is Ok && percent_decoded(value) == Some(value)
        }),
{
    let n = multi.unicode_len();
    let mut i: usize = 0;
    while i < n && multi.get_char(i) != '='
        invariant
            i <= n,
            n == multi@.len(),
            forall|j: int| 0 <= j < i ==> multi@[j] != '=',
        decreases n - i,
    {
        i += 1;
    }
    if i == n {
        proof {
            lemma_find_char_none(multi@, '=');
        }
        return Err(DecodeError::MissingValue);
    }
    proof {
        lemma_find_char_at(multi@, '=', i as int);
    }
    let encoded = multi.substring_char(i + 1, n);
    match percent_decode(encoded) {
        Some(decoded) => Ok(split_all(decoded.as_str(), ',')),
        None => Err(DecodeError::InvalidEscape),
    }
}

} // verus!
