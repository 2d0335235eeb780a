//! The resolved account record and the parser for raw `name#tag`
//! identifiers.

use vstd::prelude::*;

use crate::text::{
    count_char, find_char, is_space_char, lemma_find_char_at, lemma_trim_end_at,
    lemma_trim_start_at, trim_spec,
};

verus! {

/// The mathematical value of a [`RiotID`]: its three fields as character
/// sequences.
pub ghost struct RiotIdView {
    pub puuid: Seq<char>,
    pub game_name: Seq<char>,
    pub tag_line: Seq<char>,
}

/// A canonical account record: a stable key together with the display name
/// and tag it resolves to. Immutable once constructed.
#[derive(Debug)]
pub struct RiotID {
    puuid: String,
    game_name: String,
    tag_line: String,
}

impl View for RiotID {
    type V = RiotIdView;

    closed spec fn view(&self) -> RiotIdView {
        RiotIdView { puuid: self.puuid@, game_name: self.game_name@, tag_line: self.tag_line@ }
    }
}

/// Records are equal when their stable keys are: the key is the primary
/// identity, the display fields merely mirror it.
impl PartialEq for RiotID {
    fn eq(&self, other: &RiotID) -> (r: bool) {
        self.puuid == other.puuid
    }
}

impl vstd::std_specs::cmp::PartialEqSpecImpl for RiotID {
    open spec fn obeys_eq_spec() -> bool {
        true
    }

    open spec fn eq_spec(&self, other: &RiotID) -> bool {
        self@.puuid == other@.puuid
    }
}

impl RiotID {
    /// Builds a record from its three components, verbatim.
    pub fn new(puuid: String, game_name: String, tag_line: String) -> (r: RiotID)
        ensures
            r@.puuid == puuid@,
            r@.game_name == game_name@,
            r@.tag_line == tag_line@,
    {
        RiotID { puuid, game_name, tag_line }
    }

    pub fn get_game_name(&self) -> (r: &String)
        ensures
            r@ == self@.game_name,
    {
        &self.game_name
    }

    pub fn get_tag_line(&self) -> (r: &String)
        ensures
            r@ == self@.tag_line,
    {
        &self.tag_line
    }

    pub fn get_id(&self) -> (r: &String)
        ensures
            r@ == self@.puuid,
    {
        &self.puuid
    }
}

/// What parsing a raw identifier yields: after trimming white space, the
/// segments on either side of the sole `#`, or nothing unless `#` occurs
/// exactly once.
pub open spec fn parse_spec(s: Seq<char>) -> Option<(Seq<char>, Seq<char>)> {
    let t = trim_spec(s);
    if count_char(t, '#') == 1 {
        let i = find_char(t, '#');
        Some((t.subrange(0, i), t.subrange(i + 1, t.len() as int)))
    } else {
        None
    }
}

/// Splits a raw identifier into its name and tag components.
///
/// Leading and trailing white space is trimmed first; the split succeeds iff
/// the trimmed string contains exactly one `#`, and both segments are
/// returned verbatim, empty or not.
pub fn parse_player_name(player_name: &str) -> (r: Option<(String, String)>)
    ensures
        r is Some <==> count_char(trim_spec(player_name@), '#') == 1,
        match r {
            Some(p) => parse_spec(player_name@) == Some((p.0@, p.1@)),
            None => parse_spec(player_name@) is None,
        },
{
    let ghost s = player_name@;
    let n = player_name.unicode_len();

    let mut start: usize = 0;
    while start < n && is_space_char(player_name.get_char(start))
        invariant
            start <= n,
            n == s.len(),
            s == player_name@,
            forall|j: int| 0 <= j < start ==> crate::text::is_space(s[j]),
        decreases n - start,
    {
        start += 1;
    }

    let mut end: usize = n;
    while end > start && is_space_char(player_name.get_char(end - 1))
        invariant
            start <= end <= n,
            n == s.len(),
            s == player_name@,
            forall|j: int| 0 <= j < start ==> crate::text::is_space(s[j]),
            start == n || !crate::text::is_space(s[start as int]),
            forall|j: int| end <= j < n ==> crate::text::is_space(s[j]),
        decreases end,
    {
        end -= 1;
    }

    let trimmed = player_name.substring_char(start, end);
    proof {
        lemma_trim_start_at(s, start as int);
        let tail = s.subrange(start as int, n as int);
        lemma_trim_end_at(tail, end - start);
        assert(tail.subrange(0, end - start) =~= s.subrange(start as int, end as int));
        assert(trimmed@ == trim_spec(s));
    }

    let tn = end - start;
    let ghost t = trimmed@;
    let mut i: usize = 0;
    let mut cnt: usize = 0;
    let mut pos: usize = 0;
    while i < tn
        invariant
            i <= tn,
            cnt <= i,
            tn == t.len(),
            t == trimmed@,
            cnt == count_char(t.subrange(0, i as int), '#'),
            cnt > 0 ==> pos < i && t[pos as int] == '#' && (forall|j: int|
                0 <= j < pos ==> t[j] != '#'),
            cnt == 0 ==> forall|j: int| 0 <= j < i ==> t[j] != '#',
        decreases tn - i,
    {
        proof {
            assert(t.subrange(0, i + 1).drop_last() =~= t.subrange(0, i as int));
            assert(t.subrange(0, i + 1).last() == t[i as int]);
        }
        if trimmed.get_char(i) == '#' {
            if cnt == 0 {
                pos = i;
            }
            cnt += 1;
        }
        i += 1;
    }
    proof {
        assert(t.subrange(0, tn as int) =~= t);
    }

    if cnt == 1 {
        proof {
            lemma_find_char_at(t, '#', pos as int);
        }
        let game_name = trimmed.substring_char(0, pos).to_owned();
        let tag_line = trimmed.substring_char(pos + 1, tn).to_owned();
        Some((game_name, tag_line))
    } else {
        None
    }
}

} // verus!
