use vstd::prelude::*;

use crate::registry::{has_name, without, Registry};
use crate::user::User;

verus! {

/// One line a session read from its peer, on its way to everyone else.
#[derive(Debug)]
pub struct ChatEvent {
    pub sender: User,
    pub text: String,
}

/// The line every other session receives for `text` sent by `sender`:
/// `<sender> text` and a line feed.
pub open spec fn chat_line_of(sender: Seq<char>, text: Seq<char>) -> Seq<char> {
    seq!['<'] + sender + seq!['>', ' '] + text + seq!['\n']
}

pub fn chat_line(sender: &User, text: &str) -> (s: String)
    ensures
        s@ == chat_line_of(sender.name@, text@),
{
    proof {
        reveal_strlit("<");
        reveal_strlit("> ");
        reveal_strlit("\n");
    }
    let mut s = String::new();
    s.append("<");
    s.append(sender.name.as_str());
    s.append("> ");
    s.append(text);
    s.append("\n");
    assert(s@ =~= chat_line_of(sender.name@, text@));
    s
}

/// What the router does with one event: the line to write, and the
/// sessions to write it to.
pub struct Broadcast<S> {
    pub line: String,
    pub recipients: Vec<(User, S)>,
}

/// Plans the delivery of `event`: its line goes to every registered session
/// but the sender's, read from the registry in one go.
pub fn fan_out<S: Clone>(registry: &Registry<S>, event: &ChatEvent) -> (b: Broadcast<S>)
    ensures
        b.line@ == chat_line_of(event.sender.name@, event.text@),
        b.recipients@.len() == without(registry@, event.sender.name@).len(),
        forall|i: int|
            0 <= i < b.recipients@.len() ==> {
                &&& (#[trigger] b.recipients@[i]).0.name@ == without(
                    registry@,
                    event.sender.name@,
                )[i].0
                &&& cloned(without(registry@, event.sender.name@)[i].1, b.recipients@[i].1)
            },
        forall|r: Seq<char>|
            #![trigger has_name(without(registry@, event.sender.name@), r)]
            has_name(without(registry@, event.sender.name@), r) <==> exists|i: int|
                0 <= i < b.recipients@.len() && (#[trigger] b.recipients@[i]).0.name@ == r,
{
    let recipients = registry.snapshot_others(&event.sender);
    let line = chat_line(&event.sender, event.text.as_str());
    let b = Broadcast { line, recipients };
    let ghost w = without(registry@, event.sender.name@);
    assert forall|r: Seq<char>| has_name(w, r) <==> exists|i: int|
        0 <= i < b.recipients@.len() && (#[trigger] b.recipients@[i]).0.name@ == r by {
        if has_name(w, r) {
            let k = choose|k: int| 0 <= k < w.len() && #[trigger] w[k].0 == r;
            assert(b.recipients@[k].0.name@ == r);
        }
        if exists|i: int| 0 <= i < b.recipients@.len() && (#[trigger] b.recipients@[i]).0.name@
            == r {
            let i = choose|i: int|
                0 <= i < b.recipients@.len() && (#[trigger] b.recipients@[i]).0.name@ == r;
            assert(w[i].0 == r);
        }
    }
    b
}

/// The lines session `r` receives while the router handles `events` (each a
/// sender's name and a text) one by one in queue order, calling `fan_out`
/// on each with the registry reading `regs[k]` when it handles `events[k]`:
/// by `fan_out`'s contract, `r` is among that call's recipients exactly when
/// it is named in `without(regs[k], events[k].0)`, and the line it gets is
/// `chat_line_of(events[k].0, events[k].1)`.
pub open spec fn lines_received<S>(
    regs: Seq<Seq<(Seq<char>, S)>>,
    events: Seq<(Seq<char>, Seq<char>)>,
    r: Seq<char>,
) -> Seq<Seq<char>>
    decreases events.len(),
{
    if events.len() == 0 {
        Seq::empty()
    } else {
        let k = events.len() - 1;
        let earlier = lines_received(regs, events.drop_last(), r);
        if has_name(without(regs[k], events[k].0), r) {
            earlier.push(chat_line_of(events[k].0, events[k].1))
        } else {
            earlier
        }
    }
}

/// What a session received while the first `m` events were handled is what
/// it had received by then: later events only add to the end.
pub proof fn lemma_lines_received_grow<S>(
    regs: Seq<Seq<(Seq<char>, S)>>,
    events: Seq<(Seq<char>, Seq<char>)>,
    r: Seq<char>,
    m: int,
)
    requires
        0 <= m <= events.len(),
    ensures
        lines_received(regs, events.take(m), r).len() <= lines_received(regs, events, r).len(),
        lines_received(regs, events, r).take(lines_received(regs, events.take(m), r).len() as int)
            == lines_received(regs, events.take(m), r),
    decreases events.len(),
{
    let full = lines_received(regs, events, r);
    if m == events.len() {
        assert(events.take(m) =~= events);
        assert(full.take(full.len() as int) =~= full);
    } else {
        assert(events.take(m) =~= events.drop_last().take(m));
        lemma_lines_received_grow(regs, events.drop_last(), r, m);
        let part = lines_received(regs, events.take(m), r);
        let before = lines_received(regs, events.drop_last(), r);
        assert(full.take(part.len() as int) =~= before.take(part.len() as int));
    }
}

/// A session other than the sender's that is registered when an event is
/// handled gets that event's line.
proof fn lemma_recipient_gets_line<S>(v: Seq<(Seq<char>, S)>, sender: Seq<char>, r: Seq<char>)
    requires
        has_name(v, r),
        r != sender,
    ensures
        has_name(without(v, sender), r),
{
    let i = choose|i: int| 0 <= i < v.len() && #[trigger] v[i].0 == r;
    let keep = crate::registry::named_other_than::<S>(sender);
    v.lemma_filter_contains(keep, i);
    let w = without(v, sender);
    let k = choose|k: int| 0 <= k < w.len() && w[k] == v[i];
    assert(w[k].0 == r);
}

/// Order per sender is kept end to end: when one sender's event `i` is
/// queued before its event `j`, every other session registered at both
/// moments receives the line of `i` before the line of `j`.
pub proof fn lemma_sender_order_kept<S>(
    regs: Seq<Seq<(Seq<char>, S)>>,
    events: Seq<(Seq<char>, Seq<char>)>,
    r: Seq<char>,
    i: int,
    j: int,
)
    requires
        regs.len() == events.len(),
        0 <= i < j < events.len(),
        events[i].0 == events[j].0,
        r != events[i].0,
        has_name(regs[i], r),
        has_name(regs[j], r),
    ensures
        exists|k1: int, k2: int|
            0 <= k1 < k2 < lines_received(regs, events, r).len()
                && lines_received(regs, events, r)[k1] == chat_line_of(events[i].0, events[i].1)
                && lines_received(regs, events, r)[k2] == chat_line_of(events[j].0, events[j].1),
{
    let full = lines_received(regs, events, r);
    lemma_recipient_gets_line(regs[i], events[i].0, r);
    lemma_recipient_gets_line(regs[j], events[j].0, r);
    let a = lines_received(regs, events.take(i), r);
    let b = lines_received(regs, events.take(i + 1), r);
    let c = lines_received(regs, events.take(j), r);
    let d = lines_received(regs, events.take(j + 1), r);
    assert(events.take(i + 1).drop_last() =~= events.take(i));
    assert(events.take(j + 1).drop_last() =~= events.take(j));
    assert(b == a.push(chat_line_of(events[i].0, events[i].1)));
    assert(d == c.push(chat_line_of(events[j].0, events[j].1)));
    lemma_lines_received_grow(regs, events.take(j), r, i + 1);
    assert(events.take(j).take(i + 1) =~= events.take(i + 1));
    lemma_lines_received_grow(regs, events, r, i + 1);
    lemma_lines_received_grow(regs, events, r, j + 1);
    let k1 = a.len() as int;
    let k2 = c.len() as int;
    assert(full.take(b.len() as int)[k1] == b[k1]);
    assert(full.take(d.len() as int)[k2] == d[k2]);
}

} // verus!
