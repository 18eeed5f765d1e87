//! The public data dump of anonymous poll participation: every poll's tally,
//! issuer key, issued-token count and ballot-chain head. This module groups
//! the tally rows into polls; the ballots themselves are listed as stored.

use vstd::prelude::*;

use crate::crypto::{base64_standard_encode, encode_base64_standard};
use crate::text::{hex_encode, hex_spec};

verus! {

/// The licence the dump is dedicated under: the public domain.
pub const LICENSE: &'static str = "CC0-1.0";

/// How to recompute and verify the dump, and what it does and does not prove.
pub const NOTE: &'static str = "Anonymous poll participation data. Recompute each option's tally by counting the ballots that selected it; the counts here must match. A `token` is a per-poll nullifier, tied to no account and not linkable across polls. Verify each ballot with scripts/verify_chain.py, which checks: the blind signature over the token under the poll's public_key (the ballot was issued for this poll), that no token repeats (no double vote), the append-only hash chain, and the reconciliation `spent <= issued <= eligible` (each poll's ballots do not exceed its issued tokens, and issuance does not exceed the eligible-account count). This proves ballots were issued, unaltered, and un-double-voted, and that the operator cannot link a ballot to a voter. It does not prove one person one vote. `issued` and `eligible` are counts we attest; they cannot be recomputed from this file, because doing so would need the account data we do not publish. Each ballot carries its `cast_at`, so the timeline of when a poll's ballots were cast is recomputable by bucketing them.";

/// The whole dump.
pub struct PollsDump {
    /// The data is dedicated to the public domain.
    pub license: &'static str,
    /// The build the dump was produced by, so a snapshot ties to a commit.
    pub commit: String,
    /// How to recompute and verify, and what this does and does not prove.
    pub note: &'static str,
    /// Accounts eligible to vote (verified, unbanned): the ceiling for how many
    /// tokens any poll can issue.
    pub eligible: i64,
    pub polls: Vec<PollExport>,
    pub ballots: Vec<BallotExport>,
}

/// One stored ballot, as read for the dump.
pub struct BallotRow {
    pub poll_slug: String,
    pub poll_id: i64,
    pub seq: i64,
    pub token: Vec<u8>,
    pub signature: Vec<u8>,
    pub randomizer: Option<Vec<u8>>,
    pub option_ids: Vec<i64>,
    /// When it was cast, RFC 3339.
    pub cast_at: String,
    pub content_hash: Vec<u8>,
    pub prev_hash: Option<Vec<u8>>,
}

/// One exported ballot: its byte fields as lowercase hex. It carries no
/// identity.
pub struct BallotExport {
    pub poll: String,
    pub poll_id: i64,
    pub seq: i64,
    pub token: String,
    pub signature: String,
    pub randomizer: Option<String>,
    pub options: Vec<i64>,
    pub cast_at: String,
    pub content_hash: String,
    pub prev_hash: Option<String>,
}

/// The hex of optional bytes.
pub open spec fn opt_hex(b: Option<Vec<u8>>) -> Option<Seq<char>> {
    match b {
        Some(v) => Some(hex_spec(v@)),
        None => None,
    }
}

fn hex_opt(b: &Option<Vec<u8>>) -> (r: Option<String>)
    ensures
        match r {
            Some(s) => opt_hex(*b) == Some(s@),
            None => b is None,
        },
{
    match b {
        Some(v) => Some(hex_encode(v.as_slice())),
        None => None,
    }
}

/// A stored ballot as the dump lists it.
pub fn export_ballot(b: BallotRow) -> (r: BallotExport)
    ensures
        r.poll@ == b.poll_slug@,
        r.poll_id == b.poll_id,
        r.seq == b.seq,
        r.token@ == hex_spec(b.token@),
        r.signature@ == hex_spec(b.signature@),
        match r.randomizer {
            Some(s) => opt_hex(b.randomizer) == Some(s@),
            None => b.randomizer is None,
        },
        r.options@ == b.option_ids@,
        r.cast_at@ == b.cast_at@,
        r.content_hash@ == hex_spec(b.content_hash@),
        match r.prev_hash {
            Some(s) => opt_hex(b.prev_hash) == Some(s@),
            None => b.prev_hash is None,
        },
{
    let token = hex_encode(b.token.as_slice());
    let signature = hex_encode(b.signature.as_slice());
    let randomizer = hex_opt(&b.randomizer);
    let content_hash = hex_encode(b.content_hash.as_slice());
    let prev_hash = hex_opt(&b.prev_hash);
    BallotExport {
        poll: b.poll_slug,
        poll_id: b.poll_id,
        seq: b.seq,
        token,
        signature,
        randomizer,
        options: b.option_ids,
        cast_at: b.cast_at,
        content_hash,
        prev_hash,
    }
}

/// One tally row: a poll's option with its vote count, and the poll's own
/// figures repeated on each of its rows. Rows arrive ordered by poll, then by
/// option position.
pub struct TallyRow {
    pub slug: String,
    pub question: String,
    pub kind: String,
    pub poll_id: i64,
    pub position: i32,
    pub option_id: i64,
    pub label: String,
    pub votes: i64,
    /// The issuer public key (DER SPKI), when the poll has one.
    pub public_key: Option<Vec<u8>>,
    pub issued: i64,
    pub spent: i64,
    pub head_seq: Option<i64>,
    pub head_hash: Option<Vec<u8>>,
}

/// One option of an exported poll.
pub struct OptionExport {
    pub position: i32,
    pub id: i64,
    pub label: String,
    pub votes: i64,
}

/// The head of a poll's ballot chain.
pub struct ChainHead {
    pub seq: i64,
    pub hash: String,
}

/// One exported poll. Its public key is base64 (SPKI).
pub struct PollExport {
    pub slug: String,
    pub question: String,
    pub kind: String,
    pub poll_id: i64,
    pub total_votes: i64,
    pub public_key: Option<String>,
    pub issued: i64,
    pub spent: i64,
    pub chain: Option<ChainHead>,
    pub options: Vec<OptionExport>,
}

/// The figures of an option: position, id, votes.
pub open spec fn option_figures(o: OptionExport) -> (i32, i64, i64) {
    (o.position, o.id, o.votes)
}

/// The sum of the votes of a list of options.
pub open spec fn votes_sum(opts: Seq<OptionExport>) -> int
    decreases opts.len(),
{
    if opts.len() == 0 {
        0
    } else {
        votes_sum(opts.drop_last()) + opts.last().votes
    }
}

/// The sum of the votes of a list of rows.
pub open spec fn rows_votes(rows: Seq<TallyRow>) -> int
    decreases rows.len(),
{
    if rows.len() == 0 {
        0
    } else {
        rows_votes(rows.drop_last()) + rows.last().votes
    }
}

/// The chain head a row reports: present when its sequence number is
/// positive, its hash hex (empty when missing).
pub open spec fn chain_spec(head_seq: Option<i64>, head_hash: Option<Vec<u8>>) -> Option<(i64, Seq<char>)> {
    match head_seq {
        Some(s) => if s > 0 {
            Some(
                (
                    s,
                    hex_spec(
                        match head_hash {
                            Some(h) => h@,
                            None => Seq::<u8>::empty(),
                        },
                    ),
                ),
            )
        } else {
            None
        },
        None => None,
    }
}

/// Which rows each exported poll came from: consecutive rows of one poll
/// (same slug) collect together. The result lists, for each poll, the index of
/// its first row and how many rows it has.
pub open spec fn groups(slugs: Seq<Seq<char>>) -> Seq<(int, int)>
    decreases slugs.len(),
{
    if slugs.len() == 0 {
        Seq::empty()
    } else {
        let prev = groups(slugs.drop_last());
        if prev.len() > 0 && slugs[prev.last().0] == slugs.last() {
            prev.update(prev.len() - 1, (prev.last().0, prev.last().1 + 1))
        } else {
            prev.push((slugs.len() - 1, 1))
        }
    }
}

/// The slugs of the rows.
pub open spec fn row_slugs(rows: Seq<TallyRow>) -> Seq<Seq<char>> {
    rows.map_values(|r: TallyRow| r.slug@)
}

/// An exported poll as it must come out of the rows `rows[start..start+n]`:
/// the first row's poll figures and chain head, one option per row in order,
/// and the total of their votes.
pub open spec fn poll_from_rows(p: PollExport, rows: Seq<TallyRow>, start: int, n: int) -> bool {
    let first = rows[start];
    &&& p.slug@ == first.slug@
    &&& p.question@ == first.question@
    &&& p.kind@ == first.kind@
    &&& p.poll_id == first.poll_id
    &&& p.issued == first.issued
    &&& p.spent == first.spent
    &&& (match (p.public_key, first.public_key) {
        (Some(a), Some(b)) => a@ == base64_standard_encode(b@),
        (None, None) => true,
        _ => false,
    })
    &&& (match (p.chain, chain_spec(first.head_seq, first.head_hash)) {
        (Some(c), Some((s, h))) => c.seq == s && c.hash@ == h,
        (None, None) => true,
        _ => false,
    })
    &&& p.options@.len() == n
    &&& forall|k: int|
        0 <= k < n ==> option_figures(#[trigger] p.options@[k]) == (
            rows[start + k].position,
            rows[start + k].option_id,
            rows[start + k].votes,
        ) && p.options@[k].label@ == rows[start + k].label@
    &&& p.total_votes == votes_sum(p.options@)
}

proof fn lemma_groups_shape(slugs: Seq<Seq<char>>)
    ensures
        slugs.len() > 0 ==> groups(slugs).len() > 0,
        groups(slugs).len() > 0 ==> groups(slugs).last().0 + groups(slugs).last().1 == slugs.len(),
        forall|g: int|
            0 <= g < groups(slugs).len() ==> 0 <= (#[trigger] groups(slugs)[g]).0 && 1
                <= groups(slugs)[g].1,
    decreases slugs.len(),
{
    if slugs.len() > 0 {
        lemma_groups_shape(slugs.drop_last());
    }
}

proof fn lemma_votes_sum_push(opts: Seq<OptionExport>, o: OptionExport)
    ensures
        votes_sum(opts.push(o)) == votes_sum(opts) + o.votes,
{
    assert(opts.push(o).drop_last() =~= opts);
}

/// Each poll's running total, as its rows are added one by one, fits in an
/// `i64`: the sums over the first `k` rows of every group, `k` from one to the
/// group's size.
pub open spec fn tallies_fit(rows: Seq<TallyRow>) -> bool {
    let gs = groups(row_slugs(rows));
    forall|g: int, k: int|
        0 <= g < gs.len() && 1 <= k <= gs[g].1 ==> i64::MIN <= #[trigger] rows_votes(
            rows.subrange(gs[g].0, gs[g].0 + k),
        ) <= i64::MAX
}

/// Grouping a longer prefix keeps the earlier groups and only lengthens the
/// last one.
proof fn lemma_groups_grow(s: Seq<Seq<char>>, i: int, j: int)
    requires
        0 <= i <= j <= s.len(),
    ensures
        groups(s.take(j)).len() >= groups(s.take(i)).len(),
        forall|g: int|
            0 <= g < groups(s.take(i)).len() - 1 ==> #[trigger] groups(s.take(j))[g] == groups(
                s.take(i),
            )[g],
        groups(s.take(i)).len() > 0 ==> groups(s.take(j))[groups(s.take(i)).len() - 1].0
            == groups(s.take(i)).last().0 && groups(s.take(j))[groups(s.take(i)).len() - 1].1
            >= groups(s.take(i)).last().1,
    decreases j - i,
{
    if i < j {
        lemma_groups_grow(s, i, j - 1);
        assert(s.take(j).drop_last() =~= s.take(j - 1));
        lemma_groups_shape(s.take(j - 1));
    }
}

/// Group the tally rows into exported polls, in order: consecutive rows with
/// the same slug are one poll, whose options are its rows in order and whose
/// total is the sum of their votes.
pub fn group_tallies(rows: Vec<TallyRow>) -> (r: Vec<PollExport>)
    requires
        tallies_fit(rows@),
    ensures
        r@.len() == groups(row_slugs(rows@)).len(),
        forall|g: int|
            0 <= g < r@.len() ==> poll_from_rows(
                #[trigger] r@[g],
                rows@,
                groups(row_slugs(rows@))[g].0,
                groups(row_slugs(rows@))[g].1,
            ),
{
    let ghost all = rows@;
    let mut polls: Vec<PollExport> = Vec::new();
    let mut i: usize = 0;
    while i < rows.len()
        invariant
            i <= rows@.len(),
            all == rows@,
            tallies_fit(all),
            polls@.len() == groups(row_slugs(all.take(i as int))).len(),
            forall|g: int|
                0 <= g < polls@.len() ==> poll_from_rows(
                    #[trigger] polls@[g],
                    all,
                    groups(row_slugs(all.take(i as int)))[g].0,
                    groups(row_slugs(all.take(i as int)))[g].1,
                ),
            forall|g: int|
                0 <= g < polls@.len() ==> (#[trigger] polls@[g]).total_votes == rows_votes(
                    all.subrange(
                        groups(row_slugs(all.take(i as int)))[g].0,
                        groups(row_slugs(all.take(i as int)))[g].0 + groups(
                            row_slugs(all.take(i as int)),
                        )[g].1,
                    ),
                ),
        decreases rows.len() - i,
    {
        let ghost slugs_old = row_slugs(all.take(i as int));
        let ghost gs_old = groups(slugs_old);
        proof {
            assert(row_slugs(all.take(i + 1)) =~= slugs_old.push(all[i as int].slug@));
            assert(row_slugs(all.take(i + 1)).drop_last() =~= slugs_old);
            lemma_groups_shape(slugs_old);
            assert(all.take(i + 1).drop_last() =~= all.take(i as int));
            assert(row_slugs(all).take(i as int) =~= slugs_old);
            assert(row_slugs(all).take(i + 1) =~= row_slugs(all.take(i + 1)));
            assert(row_slugs(all).take(row_slugs(all).len() as int) =~= row_slugs(all));
            lemma_groups_grow(row_slugs(all), i + 1, all.len() as int);
        }
        let opt = OptionExport {
            position: rows[i].position,
            id: rows[i].option_id,
            label: rows[i].label.clone(),
            votes: rows[i].votes,
        };
        let n = polls.len();
        if n > 0 && crate::text::str_eq(polls[n - 1].slug.as_str(), rows[i].slug.as_str()) {
            proof {
                assert(row_slugs(all.take(i + 1))[gs_old.last().0] == all[gs_old.last().0].slug@);
                assert(polls@[n - 1].slug@ == all[gs_old[n - 1].0].slug@);
            }
            let ghost before = polls@;
            proof {
                let st = gs_old[n - 1].0;
                let cnt = gs_old[n - 1].1;
                let gs_new = groups(row_slugs(all.take(i + 1)));
                assert(gs_new == gs_old.update(n - 1, (st, cnt + 1)));
                assert(st + cnt == i);
                assert(all.subrange(st, st + cnt + 1).drop_last() =~= all.subrange(st, st + cnt));
                assert(all.subrange(st, st + cnt + 1).last() == all[i as int]);
                let full = groups(row_slugs(all));
                assert(full[n - 1].0 == st && full[n - 1].1 >= cnt + 1);
                let k = cnt + 1;
                assert(i64::MIN <= rows_votes(all.subrange(full[n - 1].0, full[n - 1].0 + k))
                    <= i64::MAX);
            }
            let mut last = polls.pop().unwrap();
            assert(last == before[n - 1]);
            let ghost last_opts = last.options@;
            last.total_votes = last.total_votes + rows[i].votes;
            last.options.push(opt);
            proof {
                lemma_votes_sum_push(last_opts, last.options@.last());
                assert(last.options@.drop_last() =~= last_opts);
            }
            polls.push(last);
            proof {
                let gs_new = groups(row_slugs(all.take(i + 1)));
                assert(gs_new == gs_old.update(n - 1, (gs_old.last().0, gs_old.last().1 + 1)));
                assert forall|g: int| 0 <= g < polls@.len() implies poll_from_rows(
                    #[trigger] polls@[g],
                    all,
                    gs_new[g].0,
                    gs_new[g].1,
                ) by {
                    if g < n - 1 {
                        assert(polls@[g] == before[g]);
                        assert(gs_new[g] == gs_old[g]);
                    } else {
                        let st = gs_old[g].0;
                        let cnt = gs_old[g].1;
                        assert(poll_from_rows(before[g], all, st, cnt));
                        assert(st + cnt == i);
                        assert forall|k: int| 0 <= k < cnt + 1 implies option_figures(
                            #[trigger] polls@[g].options@[k],
                        ) == (all[st + k].position, all[st + k].option_id, all[st + k].votes)
                            && polls@[g].options@[k].label@ == all[st + k].label@ by {
                            if k < cnt {
                                assert(polls@[g].options@[k] == before[g].options@[k]);
                            }
                        }
                    }
                }
                assert forall|g: int| 0 <= g < polls@.len() implies (
                #[trigger] polls@[g]).total_votes == rows_votes(
                    all.subrange(gs_new[g].0, gs_new[g].0 + gs_new[g].1),
                ) by {
                    if g < n - 1 {
                        assert(polls@[g] == before[g]);
                        assert(gs_new[g] == gs_old[g]);
                    }
                }
            }
        } else {
            let chain = match rows[i].head_seq {
                Some(sq) => if sq > 0 {
                    let hash = match &rows[i].head_hash {
                        Some(h) => hex_encode(h.as_slice()),
                        None => {
                            let empty: Vec<u8> = Vec::new();
                            assert(empty@ =~= Seq::<u8>::empty());
                            hex_encode(empty.as_slice())
                        },
                    };
                    Some(ChainHead { seq: sq, hash })
                } else {
                    None
                },
                None => None,
            };
            let key = match &rows[i].public_key {
                Some(k) => Some(encode_base64_standard(k.as_slice())),
                None => None,
            };
            let mut options: Vec<OptionExport> = Vec::new();
            options.push(opt);
            let ghost before = polls@;
            polls.push(
                PollExport {
                    slug: rows[i].slug.clone(),
                    question: rows[i].question.clone(),
                    kind: rows[i].kind.clone(),
                    poll_id: rows[i].poll_id,
                    total_votes: rows[i].votes,
                    public_key: key,
                    issued: rows[i].issued,
                    spent: rows[i].spent,
                    chain,
                    options,
                },
            );
            proof {
                let gs_new = groups(row_slugs(all.take(i + 1)));
                if n > 0 {
                    assert(row_slugs(all.take(i + 1))[gs_old.last().0] == all[gs_old.last().0].slug@);
                    assert(before[n - 1].slug@ == all[gs_old[n - 1].0].slug@);
                }
                assert(gs_new == gs_old.push((i as int, 1int)));
                let p = polls@[n as int];
                assert(p.options@.drop_last() =~= Seq::<OptionExport>::empty());
                assert(p.options@.len() == 1);
                assert(votes_sum(p.options@.drop_last()) == 0);
                assert(p.options@.last() == p.options@[0]);
                assert(votes_sum(p.options@) == p.options@[0].votes);
                assert forall|g: int| 0 <= g < polls@.len() implies poll_from_rows(
                    #[trigger] polls@[g],
                    all,
                    gs_new[g].0,
                    gs_new[g].1,
                ) by {
                    if g < n {
                        assert(polls@[g] == before[g]);
                        assert(gs_new[g] == gs_old[g]);
                    } else {
                        assert forall|k: int| 0 <= k < 1 implies option_figures(
                            #[trigger] polls@[g].options@[k],
                        ) == (all[i + k].position, all[i + k].option_id, all[i + k].votes)
                            && polls@[g].options@[k].label@ == all[i + k].label@ by {
                            assert(k == 0);
                        }
                    }
                }
                assert(all.subrange(i as int, i + 1).drop_last() =~= Seq::<TallyRow>::empty());
                assert forall|g: int| 0 <= g < polls@.len() implies (
                #[trigger] polls@[g]).total_votes == rows_votes(
                    all.subrange(gs_new[g].0, gs_new[g].0 + gs_new[g].1),
                ) by {
                    if g < n {
                        assert(polls@[g] == before[g]);
                        assert(gs_new[g] == gs_old[g]);
                    } else {
                        let one = all.subrange(i as int, i + 1);
                        assert(one.last() == all[i as int]);
                        assert(rows_votes(one.drop_last()) == 0);
                        assert(gs_new[g] == (i as int, 1int));
                    }
                }
            }
        }
        i = i + 1;
    }
    assert(all.take(rows@.len() as int) =~= all);
    polls
}

} // verus!
