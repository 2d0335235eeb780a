//! Batch resolution: one parse and at most one lookup per raw identifier,
//! with outcomes partitioned into ordered success and failure sequences.
//!
//! The network call itself cannot live here; the caller performs one lookup
//! per entry of [`lookup_plan`] and hands the outcomes, in that order, to
//! [`resolve_batch`], which is verified for every possible outcome.

use vstd::prelude::*;

use crate::errors::{client_error_message_spec, ClientError, FetchRiotIdError};
use crate::riot_id::{parse_spec, parse_player_name, RiotID};

verus! {

/// Whether a raw identifier parses into a (name, tag) pair.
pub open spec fn parseable(s: Seq<char>) -> bool {
    parse_spec(s) is Some
}

/// How many identifiers of `ps` parse, which is how many lookups a batch
/// over `ps` performs.
pub open spec fn parseable_count(ps: Seq<Seq<char>>) -> nat
    decreases ps.len(),
{
    if ps.len() == 0 {
        0
    } else {
        parseable_count(ps.drop_last()) + (if parseable(ps.last()) {
            1nat
        } else {
            0nat
        })
    }
}

/// The (name, tag) pairs of the identifiers of `ps` that parse, in input
/// order: the lookups a batch over `ps` performs.
pub open spec fn plan_spec(ps: Seq<Seq<char>>) -> Seq<(Seq<char>, Seq<char>)>
    decreases ps.len(),
{
    if ps.len() == 0 {
        Seq::empty()
    } else {
        let rest = plan_spec(ps.drop_last());
        if parseable(ps.last()) {
            rest.push(((parse_spec(ps.last())->0).0, (parse_spec(ps.last())->0).1))
        } else {
            rest
        }
    }
}

/// The reason recorded for an identifier that does not parse.
pub open spec fn invalid_format_message() -> Seq<char> {
    "Invalid name format"@
}

/// The batch result over identifiers `ps`, where `outs[k]` is the outcome
/// of the `k`-th lookup of the plan: identifiers that do not parse fail with
/// [`invalid_format_message`] and consume no outcome; the others consume the
/// next outcome, a success joining the record sequence and a failure joining
/// the failure sequence with the stringified error. Both sequences keep
/// input order. (When `outs` is shorter than the plan the remaining
/// identifiers fail with an empty reason; `resolve_batch` never reaches
/// that.)
pub open spec fn batch_spec(ps: Seq<Seq<char>>, outs: Seq<Result<RiotID, ClientError>>) -> (Seq<
    RiotID,
>, Seq<(Seq<char>, Seq<char>)>)
    decreases ps.len(),
{
    if ps.len() == 0 {
        (Seq::empty(), Seq::empty())
    } else {
        let r = batch_spec(ps.drop_last(), outs);
        let p = ps.last();
        if !parseable(p) {
            (r.0, r.1.push((p, invalid_format_message())))
        } else {
            let k = parseable_count(ps.drop_last());
            if k < outs.len() {
                match outs[k as int] {
                    Ok(rid) => (r.0.push(rid), r.1),
                    Err(e) => (r.0, r.1.push((p, client_error_message_spec(e)))),
                }
            } else {
                (r.0, r.1.push((p, Seq::empty())))
            }
        }
    }
}

/// Every batch partitions its input: one entry per identifier, success or
/// failure, never both, never neither.
pub proof fn lemma_batch_partition(ps: Seq<Seq<char>>, outs: Seq<Result<RiotID, ClientError>>)
    ensures
        batch_spec(ps, outs).0.len() + batch_spec(ps, outs).1.len() == ps.len(),
    decreases ps.len(),
{
    if ps.len() > 0 {
        lemma_batch_partition(ps.drop_last(), outs);
    }
}

/// A plan holds exactly one lookup per identifier that parses.
pub proof fn lemma_plan_len(ps: Seq<Seq<char>>)
    ensures
        plan_spec(ps).len() == parseable_count(ps),
    decreases ps.len(),
{
    if ps.len() > 0 {
        lemma_plan_len(ps.drop_last());
    }
}

/// Both output sequences keep input order: the batch over a prefix of the
/// input is a prefix of the batch over the whole, so processing a later
/// identifier only ever appends.
pub proof fn lemma_batch_keeps_order(
    ps: Seq<Seq<char>>,
    outs: Seq<Result<RiotID, ClientError>>,
    i: int,
)
    requires
        0 <= i <= ps.len(),
    ensures
        ({
            let part = batch_spec(ps.subrange(0, i), outs);
            let whole = batch_spec(ps, outs);
            part.0.len() <= whole.0.len() && part.0 == whole.0.subrange(0, part.0.len() as int)
                && part.1.len() <= whole.1.len() && part.1 == whole.1.subrange(
                0,
                part.1.len() as int,
            )
        }),
    decreases ps.len() - i,
{
    let part = batch_spec(ps.subrange(0, i), outs);
    let whole = batch_spec(ps, outs);
    if i == ps.len() {
        assert(ps.subrange(0, i) =~= ps);
        assert(part.0 =~= whole.0.subrange(0, part.0.len() as int));
        assert(part.1 =~= whole.1.subrange(0, part.1.len() as int));
    } else {
        lemma_batch_keeps_order(ps, outs, i + 1);
        let mid = batch_spec(ps.subrange(0, i + 1), outs);
        assert(ps.subrange(0, i + 1).drop_last() =~= ps.subrange(0, i));
        assert(ps.subrange(0, i + 1).last() == ps[i]);
        assert(part.0 =~= mid.0.subrange(0, part.0.len() as int));
        assert(part.1 =~= mid.1.subrange(0, part.1.len() as int));
        assert(part.0 =~= whole.0.subrange(0, part.0.len() as int));
        assert(part.1 =~= whole.1.subrange(0, part.1.len() as int));
    }
}

/// An identifier that does not parse always lands in the failure sequence
/// with the invalid-format reason, whatever the lookup outcomes are; by
/// [`lemma_plan_len`] it also contributes no lookup to the plan.
pub proof fn lemma_unparseable_fails(
    ps: Seq<Seq<char>>,
    outs: Seq<Result<RiotID, ClientError>>,
    i: int,
)
    requires
        0 <= i < ps.len(),
        !parseable(ps[i]),
    ensures
        batch_spec(ps, outs).1.contains((ps[i], invalid_format_message())),
    decreases ps.len(),
{
    if i == ps.len() - 1 {
        assert(batch_spec(ps, outs).1.last() == (ps[i], invalid_format_message()));
    } else {
        lemma_unparseable_fails(ps.drop_last(), outs, i);
        let prev = batch_spec(ps.drop_last(), outs).1;
        let cur = batch_spec(ps, outs).1;
        let j = choose|j: int| 0 <= j < prev.len() && prev[j] == (ps[i], invalid_format_message());
        assert(cur[j] == (ps[i], invalid_format_message()));
    }
}

/// Unfolding step: extending the input by one identifier adds its
/// parseability to the count.
proof fn lemma_count_step(ps: Seq<Seq<char>>, i: int)
    requires
        0 <= i < ps.len(),
    ensures
        parseable_count(ps.subrange(0, i + 1)) == parseable_count(ps.subrange(0, i)) + (
        if parseable(ps[i]) {
            1nat
        } else {
            0nat
        }),
{
    assert(ps.subrange(0, i + 1).drop_last() =~= ps.subrange(0, i));
    assert(ps.subrange(0, i + 1).last() == ps[i]);
}

/// A prefix never holds more parseable identifiers than the whole.
proof fn lemma_count_prefix_le(ps: Seq<Seq<char>>, i: int)
    requires
        0 <= i <= ps.len(),
    ensures
        parseable_count(ps.subrange(0, i)) <= parseable_count(ps),
    decreases ps.len() - i,
{
    if i == ps.len() {
        assert(ps.subrange(0, i) =~= ps);
    } else {
        lemma_count_step(ps, i);
        lemma_count_prefix_le(ps, i + 1);
    }
}

/// Computes the lookups a batch over `players` performs: the parsed
/// (name, tag) pair of each identifier that parses, in input order.
pub fn lookup_plan(players: &Vec<String>) -> (r: Vec<(String, String)>)
    ensures
        r.deep_view() == plan_spec(players.deep_view()),
        r@.len() == parseable_count(players.deep_view()),
{
    let ghost ps = players.deep_view();
    let mut r: Vec<(String, String)> = Vec::new();
    let mut i: usize = 0;
    proof {
        assert(ps.subrange(0, 0) =~= Seq::<Seq<char>>::empty());
        assert(r.deep_view() =~~= plan_spec(ps.subrange(0, 0)));
    }
    while i < players.len()
        invariant
            i <= players.len(),
            ps == players.deep_view(),
            ps.len() == players.len(),
            r.deep_view() == plan_spec(ps.subrange(0, i as int)),
            r@.len() == parseable_count(ps.subrange(0, i as int)),
        decreases players.len() - i,
    {
        proof {
            assert(ps.subrange(0, i + 1).drop_last() =~= ps.subrange(0, i as int));
            assert(ps.subrange(0, i + 1).last() == ps[i as int]);
            assert(ps[i as int] == players@[i as int]@);
        }
        match parse_player_name(players[i].as_str()) {
            Some(pair) => {
                r.push(pair);
                proof {
                    assert(r.deep_view() =~~= plan_spec(ps.subrange(0, i + 1)));
                }
            },
            None => {
                proof {
                    assert(r.deep_view() =~~= plan_spec(ps.subrange(0, i + 1)));
                }
            },
        }
        i += 1;
    }
    proof {
        assert(ps.subrange(0, ps.len() as int) =~= ps);
    }
    r
}

/// Aggregates one batch: `outcomes[k]` must be the outcome of the `k`-th
/// lookup of [`lookup_plan`] over the same `players`. Each identifier is
/// handled independently and in input order; no failure aborts the batch.
/// The result is exactly [`batch_spec`] of the inputs.
pub fn resolve_batch(players: &Vec<String>, outcomes: Vec<Result<RiotID, ClientError>>) -> (r: (
    Vec<RiotID>,
    Vec<(String, String)>,
))
    requires
        outcomes@.len() == parseable_count(players.deep_view()),
    ensures
        r.0@ == batch_spec(players.deep_view(), outcomes@).0,
        r.1.deep_view() == batch_spec(players.deep_view(), outcomes@).1,
{
    let ghost ps = players.deep_view();
    let ghost outs0 = outcomes@;
    let mut outcomes = outcomes;
    let mut successes: Vec<RiotID> = Vec::new();
    let mut failures: Vec<(String, String)> = Vec::new();
    let mut i: usize = 0;
    proof {
        assert(ps.subrange(0, 0) =~= Seq::<Seq<char>>::empty());
        assert(outs0.subrange(0, outs0.len() as int) =~= outs0);
        assert(failures.deep_view() =~~= batch_spec(ps.subrange(0, 0), outs0).1);
    }
    while i < players.len()
        invariant
            i <= players.len(),
            ps == players.deep_view(),
            ps.len() == players.len(),
            outs0.len() == parseable_count(ps),
            outcomes@ == outs0.subrange(
                parseable_count(ps.subrange(0, i as int)) as int,
                outs0.len() as int,
            ),
            successes@ == batch_spec(ps.subrange(0, i as int), outs0).0,
            failures.deep_view() == batch_spec(ps.subrange(0, i as int), outs0).1,
        decreases players.len() - i,
    {
        proof {
            assert(ps.subrange(0, i + 1).drop_last() =~= ps.subrange(0, i as int));
            assert(ps.subrange(0, i + 1).last() == ps[i as int]);
            assert(ps[i as int] == players@[i as int]@);
            lemma_count_step(ps, i as int);
        }
        let ghost oi = parseable_count(ps.subrange(0, i as int));
        let raw = &players[i];
        match parse_player_name(raw.as_str()) {
            Some(_pair) => {
                proof {
                    lemma_count_prefix_le(ps, i + 1);
                    assert(oi < outs0.len());
                    assert(outcomes@[0] == outs0[oi as int]);
                }
                let out = outcomes.remove(0);
                proof {
                    assert(outcomes@ =~= outs0.subrange(oi as int + 1, outs0.len() as int));
                }
                match out {
                    Ok(rid) => {
                        successes.push(rid);
                    },
                    Err(e) => {
                        let reason = e.message();
                        failures.push((raw.clone(), reason));
                    },
                }
                proof {
                    assert(successes@ =~= batch_spec(ps.subrange(0, i + 1), outs0).0);
                    assert(failures.deep_view() =~~= batch_spec(ps.subrange(0, i + 1), outs0).1);
                }
            },
            None => {
                let reason = String::from_str("Invalid name format");
                failures.push((raw.clone(), reason));
                proof {
                    assert(successes@ =~= batch_spec(ps.subrange(0, i + 1), outs0).0);
                    assert(failures.deep_view() =~~= batch_spec(ps.subrange(0, i + 1), outs0).1);
                }
            },
        }
        i += 1;
    }
    proof {
        assert(ps.subrange(0, ps.len() as int) =~= ps);
    }
    (successes, failures)
}

/// The message a single-identifier resolution reports when the raw
/// identifier does not parse.
pub open spec fn invalid_player_name_message(raw: Seq<char>) -> Seq<char> {
    "Invalid player name format: "@ + raw + ". Expected format `game_name#tag_line`"@
}

/// The parsing step of single-identifier resolution: yields the (name, tag)
/// pair to look up, or the typed parse error naming the raw identifier.
pub fn resolve_one_start(player_name: &str) -> (r: Result<(String, String), FetchRiotIdError>)
    ensures
        match r {
            Ok(pair) => parse_spec(player_name@) == Some((pair.0@, pair.1@)),
            Err(e) => parse_spec(player_name@) is None && (e matches FetchRiotIdError::ParseError(
                msg,
            ) && msg@ == invalid_player_name_message(player_name@)),
        },
{
    match parse_player_name(player_name) {
        Some(pair) => Ok(pair),
        None => {
            let mut msg = String::from_str("Invalid player name format: ");
            msg.append(player_name);
            msg.append(". Expected format `game_name#tag_line`");
            proof {
                assert(msg@ =~= invalid_player_name_message(player_name@));
            }
            Err(FetchRiotIdError::ParseError(msg))
        },
    }
}

/// The wrapping step of single-identifier resolution: a successful lookup
/// is returned as is, a failed one as a typed request error.
pub fn resolve_one_finish(outcome: Result<RiotID, ClientError>) -> (r: Result<
    RiotID,
    FetchRiotIdError,
>)
    ensures
        match outcome {
            Ok(rid) => r matches Ok(x) && x == rid,
            Err(e) => r matches Err(f) && f == FetchRiotIdError::RequestError(e),
        },
{
    match outcome {
        Ok(rid) => Ok(rid),
        Err(e) => Err(FetchRiotIdError::RequestError(e)),
    }
}

} // verus!
