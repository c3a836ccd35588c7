//! The body of the server's reply to an offer: the answer, then each ICE
//! candidate, every one of them followed by a NUL character.
use crate::types::{Signal, SignalView};
use vstd::prelude::*;
use vstd::string::StrSliceExecFns;
use vstd::string::StringExecFns;

verus! {

/// The character that ends every field of a reply.
pub open spec fn nul() -> char {
    '\0'
}

/// Whether `s` holds no NUL character.
pub open spec fn nul_free(s: Seq<char>) -> bool {
    forall|i: int| 0 <= i < s.len() ==> s[i] != nul()
}

/// The pieces of `s` between NUL characters, in order, as `str::split`
/// yields them: there is always at least one piece, and a NUL at the end
/// leaves an empty last piece.
pub open spec fn split_nul(s: Seq<char>) -> Seq<Seq<char>>
    decreases s.len(),
{
    if s.len() == 0 {
        seq![Seq::<char>::empty()]
    } else {
        let p = split_nul(s.drop_last());
        if s.last() == nul() {
            p.push(Seq::<char>::empty())
        } else {
            p.update(p.len() - 1, p.last().push(s.last()))
        }
    }
}

/// Each of `fields` followed by a NUL, one after the other.
pub open spec fn terminated(fields: Seq<Seq<char>>) -> Seq<char>
    decreases fields.len(),
{
    if fields.len() == 0 {
        Seq::<char>::empty()
    } else {
        fields[0] + seq![nul()] + terminated(fields.drop_first())
    }
}

/// The reply body that carries `answer` and `candidates`.
pub open spec fn encoded_reply(answer: Seq<char>, candidates: Seq<Seq<char>>) -> Seq<char> {
    terminated(seq![answer] + candidates)
}

/// `pieces` without its empty members, in order.
pub open spec fn non_empty(pieces: Seq<Seq<char>>) -> Seq<Seq<char>>
    decreases pieces.len(),
{
    if pieces.len() == 0 {
        Seq::<Seq<char>>::empty()
    } else {
        let rest = non_empty(pieces.drop_last());
        if pieces.last().len() > 0 {
            rest.push(pieces.last())
        } else {
            rest
        }
    }
}

/// The answer that a reply body carries: everything before its first NUL.
pub open spec fn reply_answer(body: Seq<char>) -> Seq<char> {
    split_nul(body)[0]
}

/// The ICE candidates that a reply body carries: the non-empty pieces after
/// the first NUL.
pub open spec fn reply_candidates(body: Seq<char>) -> Seq<Seq<char>> {
    non_empty(split_nul(body).drop_first())
}

/// The signals that a client feeds its peer when a reply arrives: the
/// answer, each candidate, and the end of the candidates.
pub open spec fn reply_signals(body: Seq<char>) -> Seq<SignalView> {
    seq![SignalView::Answer(reply_answer(body))] + reply_candidates(body).map_values(
        |c: Seq<char>| SignalView::IceCandidate(Some(c)),
    ) + seq![SignalView::IceCandidate(None)]
}

/// Whether a reply can carry `answer` and `candidates` intact: no field
/// holds a NUL, and no candidate is empty.
pub open spec fn reply_fields_ok(answer: Seq<char>, candidates: Seq<Seq<char>>) -> bool {
    &&& nul_free(answer)
    &&& forall|i: int|
        0 <= i < candidates.len() ==> nul_free(#[trigger] candidates[i]) && candidates[i].len() > 0
}

proof fn lemma_split_nul_len(s: Seq<char>)
    ensures
        split_nul(s).len() >= 1,
    decreases s.len(),
{
    if s.len() > 0 {
        lemma_split_nul_len(s.drop_last());
    }
}

proof fn lemma_split_nul_free(s: Seq<char>)
    requires
        nul_free(s),
    ensures
        split_nul(s) == seq![s],
    decreases s.len(),
{
    if s.len() > 0 {
        lemma_split_nul_free(s.drop_last());
        assert(s.drop_last().push(s.last()) == s);
    } else {
        assert(s == Seq::<char>::empty());
    }
}

proof fn lemma_split_nul_at(x: Seq<char>, y: Seq<char>)
    ensures
        split_nul(x + seq![nul()] + y) == split_nul(x) + split_nul(y),
    decreases y.len(),
{
    let z = x + seq![nul()] + y;
    if y.len() == 0 {
        assert(z.drop_last() == x);
        assert(split_nul(y) == seq![Seq::<char>::empty()]);
    } else {
        assert(z.drop_last() == x + seq![nul()] + y.drop_last());
        lemma_split_nul_at(x, y.drop_last());
        lemma_split_nul_len(y.drop_last());
        lemma_split_nul_len(x);
        let px = split_nul(x);
        let py = split_nul(y.drop_last());
        if y.last() == nul() {
            assert((px + py).push(Seq::<char>::empty()) == px + py.push(Seq::<char>::empty()));
        } else {
            assert((px + py).update((px + py).len() - 1, (px + py).last().push(y.last())) == px
                + py.update(py.len() - 1, py.last().push(y.last())));
        }
    }
}

proof fn lemma_split_terminated(fields: Seq<Seq<char>>)
    requires
        forall|i: int| 0 <= i < fields.len() ==> nul_free(#[trigger] fields[i]),
    ensures
        split_nul(terminated(fields)) == fields + seq![Seq::<char>::empty()],
    decreases fields.len(),
{
    if fields.len() == 0 {
        assert(terminated(fields) == Seq::<char>::empty());
    } else {
        let rest = fields.drop_first();
        assert forall|i: int| 0 <= i < rest.len() implies nul_free(#[trigger] rest[i]) by {
            assert(rest[i] == fields[i + 1]);
        }
        lemma_split_terminated(rest);
        lemma_split_nul_at(fields[0], terminated(rest));
        lemma_split_nul_free(fields[0]);
        assert(seq![fields[0]] + (rest + seq![Seq::<char>::empty()]) == fields + seq![
            Seq::<char>::empty(),
        ]);
    }
}

proof fn lemma_non_empty_all(pieces: Seq<Seq<char>>)
    requires
        forall|i: int| 0 <= i < pieces.len() ==> (#[trigger] pieces[i]).len() > 0,
    ensures
        non_empty(pieces) == pieces,
    decreases pieces.len(),
{
    if pieces.len() > 0 {
        lemma_non_empty_all(pieces.drop_last());
        assert(pieces.drop_last().push(pieces.last()) == pieces);
    }
}

/// What the server writes, the client reads back: a reply built from an
/// answer and candidates that fit the format yields that answer and those
/// candidates, in the same order.
pub proof fn lemma_reply_round_trip(answer: Seq<char>, candidates: Seq<Seq<char>>)
    requires
        reply_fields_ok(answer, candidates),
    ensures
        reply_answer(encoded_reply(answer, candidates)) == answer,
        reply_candidates(encoded_reply(answer, candidates)) == candidates,
{
    let fields = seq![answer] + candidates;
    assert forall|i: int| 0 <= i < fields.len() implies nul_free(#[trigger] fields[i]) by {
        if i > 0 {
            assert(fields[i] == candidates[i - 1]);
        }
    }
    lemma_split_terminated(fields);
    let pieces = fields + seq![Seq::<char>::empty()];
    assert(pieces[0] == answer);
    assert(pieces.drop_first() == candidates + seq![Seq::<char>::empty()]);
    let tail = candidates + seq![Seq::<char>::empty()];
    assert(tail.drop_last() == candidates);
    lemma_non_empty_all(candidates);
}

proof fn lemma_split_pieces_nul_free(s: Seq<char>)
    ensures
        forall|i: int| 0 <= i < split_nul(s).len() ==> nul_free(#[trigger] split_nul(s)[i]),
    decreases s.len(),
{
    if s.len() > 0 {
        lemma_split_pieces_nul_free(s.drop_last());
        lemma_split_nul_len(s.drop_last());
        let p = split_nul(s.drop_last());
        if s.last() != nul() {
            let q = p.update(p.len() - 1, p.last().push(s.last()));
            assert forall|i: int| 0 <= i < q.len() implies nul_free(#[trigger] q[i]) by {
                if i == p.len() - 1 {
                    assert(nul_free(p[i]));
                    assert forall|k: int| 0 <= k < q[i].len() implies q[i][k] != nul() by {
                        if k < p[i].len() {
                            assert(q[i][k] == p[i][k]);
                        }
                    }
                }
            }
        } else {
            let q = p.push(Seq::<char>::empty());
            assert forall|i: int| 0 <= i < q.len() implies nul_free(#[trigger] q[i]) by {
                if i < p.len() {
                    assert(q[i] == p[i]);
                }
            }
        }
    }
}

proof fn lemma_non_empty_members(pieces: Seq<Seq<char>>)
    ensures
        forall|i: int|
            0 <= i < non_empty(pieces).len() ==> (#[trigger] non_empty(pieces)[i]).len() > 0
                && pieces.contains(non_empty(pieces)[i]),
    decreases pieces.len(),
{
    if pieces.len() > 0 {
        let rest = non_empty(pieces.drop_last());
        lemma_non_empty_members(pieces.drop_last());
        assert forall|i: int| 0 <= i < rest.len() implies pieces.contains(#[trigger] rest[i]) by {
            let j = choose|j: int| 0 <= j < pieces.drop_last().len() && pieces.drop_last()[j] == rest[i];
            assert(pieces[j] == rest[i]);
        }
        assert(pieces[pieces.len() - 1] == pieces.last());
    }
}

/// Whatever body a client receives, what it reads from it fits the reply
/// format again: the answer holds no NUL, and every candidate is non-empty
/// and holds no NUL. In particular the client never hands its peer an
/// empty candidate.
pub proof fn lemma_read_reply_fits(body: Seq<char>)
    ensures
        reply_fields_ok(reply_answer(body), reply_candidates(body)),
{
    lemma_split_pieces_nul_free(body);
    lemma_split_nul_len(body);
    let pieces = split_nul(body);
    let rest = pieces.drop_first();
    lemma_non_empty_members(rest);
    let cands = reply_candidates(body);
    assert forall|i: int| 0 <= i < cands.len() implies nul_free(#[trigger] cands[i]) && cands[i].len() > 0 by {
        let j = choose|j: int| 0 <= j < rest.len() && rest[j] == cands[i];
        assert(rest[j] == pieces[j + 1]);
    }
    assert(nul_free(pieces[0]));
}

/// Appends one character to a string.
#[verifier::external_body]
fn push_char(s: &mut String, c: char)
    ensures
        final(s)@ == old(s)@.push(c),
{
    s.push(c)
}

/// Builds the body of the server's reply: the answer and each candidate,
/// every one followed by a NUL.
pub fn encode_reply(answer: &str, candidates: &Vec<String>) -> (body: String)
    ensures
        body@ == encoded_reply(answer@, candidates@.map_values(|c: String| c@)),
{
    let ghost views = candidates@.map_values(|c: String| c@);
    let mut body = String::new();
    body.append(answer);
    push_char(&mut body, '\0');
    proof {
        let fields = seq![answer@] + views;
        assert(fields.drop_first() == views);
        assert(fields[0] == answer@);
        assert(views.skip(0) == views);
    }
    let mut i: usize = 0;
    while i < candidates.len()
        invariant
            i <= candidates.len(),
            views == candidates@.map_values(|c: String| c@),
            body@ + terminated(views.skip(i as int)) == encoded_reply(answer@, views),
        decreases candidates.len() - i,
    {
        let ghost before = body@;
        body.append(candidates[i].as_str());
        push_char(&mut body, '\0');
        proof {
            let rest = views.skip(i as int);
            assert(rest[0] == candidates@[i as int]@);
            assert(rest.drop_first() == views.skip(i + 1));
            assert(terminated(rest) == rest[0] + seq![nul()] + terminated(rest.drop_first()));
            assert(body@ == before + rest[0] + seq![nul()]);
            assert(before + terminated(rest) == body@ + terminated(views.skip(i + 1)));
        }
        i = i + 1;
    }
    proof {
        assert(views.skip(i as int) == Seq::<Seq<char>>::empty());
        assert(body@ + Seq::<char>::empty() == body@);
    }
    body
}

/// The string views of a vector of strings.
pub open spec fn views(v: Seq<String>) -> Seq<Seq<char>> {
    v.map_values(|c: String| c@)
}

/// Splits a reply body at its NUL characters, as `str::split('\0')` does.
fn split_at_nul(body: &str) -> (pieces: Vec<String>)
    ensures
        views(pieces@) == split_nul(body@),
{
    let mut done: Vec<String> = Vec::new();
    let mut current = String::new();
    for c in it: body.chars()
        invariant
            it.seq() == body@,
            split_nul(body@.take(it.index() as int)) == views(done@) + seq![current@],
    {
        let ghost k = it.index();
        let ghost prev_done = views(done@);
        let ghost prev_current = current@;
        proof {
            assert(body@.take(k + 1).drop_last() == body@.take(k as int));
            assert(body@.take(k + 1).last() == c);
        }
        if c == '\0' {
            let finished = current;
            current = String::new();
            done.push(finished);
            proof {
                assert(views(done@) == prev_done.push(prev_current));
                assert((prev_done + seq![prev_current]).push(Seq::<char>::empty()) == views(done@)
                    + seq![current@]);
            }
        } else {
            push_char(&mut current, c);
            proof {
                assert((prev_done + seq![prev_current]).update(
                    prev_done.len() as int,
                    prev_current.push(c),
                ) == prev_done + seq![current@]);
            }
        }
    }
    proof {
        assert(body@.take(body@.len() as int) == body@);
    }
    let ghost before = views(done@);
    done.push(current);
    proof {
        assert(views(done@) == before + seq![current@]);
    }
    done
}

/// Reads a reply body: the answer before the first NUL, and the non-empty
/// pieces after it as ICE candidates.
pub fn decode_reply(body: &str) -> (res: (String, Vec<String>))
    ensures
        res.0@ == reply_answer(body@),
        views(res.1@) == reply_candidates(body@),
{
    let pieces = split_at_nul(body);
    proof {
        lemma_split_nul_len(body@);
    }
    let ghost all = views(pieces@);
    let answer = pieces[0].clone();
    let mut candidates: Vec<String> = Vec::new();
    let mut i: usize = 1;
    while i < pieces.len()
        invariant
            1 <= i <= pieces.len(),
            all == views(pieces@),
            all == split_nul(body@),
            views(candidates@) == non_empty(all.subrange(1, i as int)),
        decreases pieces.len() - i,
    {
        let ghost before = views(candidates@);
        proof {
            assert(all.subrange(1, i + 1).drop_last() == all.subrange(1, i as int));
            assert(all.subrange(1, i + 1).last() == pieces@[i as int]@);
        }
        if !pieces[i].as_str().is_empty() {
            candidates.push(pieces[i].clone());
            proof {
                assert(views(candidates@) == before.push(pieces@[i as int]@));
            }
        }
        i = i + 1;
    }
    proof {
        assert(all.subrange(1, all.len() as int) == all.drop_first());
    }
    (answer, candidates)
}

/// The views of a sequence of signals.
pub open spec fn signal_views(v: Seq<Signal>) -> Seq<SignalView> {
    v.map_values(|s: Signal| s@)
}

/// The signals that a client hands its peer once the server's reply has
/// arrived: the answer, each candidate, then the end of the candidates.
pub fn reply_to_signals(body: &str) -> (signals: Vec<Signal>)
    ensures
        signal_views(signals@) == reply_signals(body@),
{
    let (answer, candidates) = decode_reply(body);
    let ghost cands = views(candidates@);
    let mut signals: Vec<Signal> = Vec::new();
    signals.push(Signal::Answer(answer));
    let mut i: usize = 0;
    while i < candidates.len()
        invariant
            i <= candidates.len(),
            cands == views(candidates@),
            cands == reply_candidates(body@),
            signal_views(signals@) == seq![SignalView::Answer(reply_answer(body@))]
                + cands.take(i as int).map_values(|c: Seq<char>| SignalView::IceCandidate(Some(c))),
        decreases candidates.len() - i,
    {
        let ghost before = signal_views(signals@);
        signals.push(Signal::IceCandidate(Some(candidates[i].clone())));
        proof {
            assert(cands.take(i + 1) == cands.take(i as int).push(cands[i as int]));
            assert(signal_views(signals@) == before.push(SignalView::IceCandidate(Some(cands[i as int]))));
            assert(cands.take(i + 1).map_values(|c: Seq<char>| SignalView::IceCandidate(Some(c)))
                == cands.take(i as int).map_values(|c: Seq<char>| SignalView::IceCandidate(Some(c))).push(
                SignalView::IceCandidate(Some(cands[i as int]))));
        }
        i = i + 1;
    }
    let ghost before = signal_views(signals@);
    signals.push(Signal::IceCandidate(None));
    proof {
        assert(cands.take(cands.len() as int) == cands);
        assert(signal_views(signals@) == before.push(SignalView::IceCandidate(None)));
    }
    signals
}

} // verus!
