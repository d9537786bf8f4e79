//! Renders events as an outline document: one heading per event with its
//! title and the day it is scheduled on.
use vstd::prelude::*;

use crate::event::{Event, EventView, events_view};

verus! {

/// The decimal digit of value `d`, for `d < 10`.
pub open spec fn digit_char(d: nat) -> char {
    "0123456789"@[d as int]
}

/// `n` written in decimal, without leading zeros.
pub open spec fn decimal(n: nat) -> Seq<char>
    decreases n,
{
    if n < 10 {
        seq![digit_char(n)]
    } else {
        decimal(n / 10) + seq![digit_char(n % 10)]
    }
}

/// The block for one event: a heading with the title, then the day that
/// its start falls on as `<year-month-day>`.
pub open spec fn event_block(e: EventView) -> Seq<char> {
    "** "@ + e.title + "\nSCHEDULED: <"@ + decimal(e.start.year as nat) + "-"@ + decimal(
        e.start.month as nat,
    ) + "-"@ + decimal(e.start.day as nat) + ">\n"@
}

/// The blocks of `events`, in order.
pub open spec fn event_blocks(events: Seq<EventView>) -> Seq<char>
    decreases events.len(),
{
    if events.len() == 0 {
        Seq::empty()
    } else {
        event_blocks(events.drop_last()) + event_block(events.last())
    }
}

/// The whole document: a top heading, then the blocks of `events`.
pub open spec fn org_document(events: Seq<EventView>) -> Seq<char> {
    "* Google Calendar\n"@ + event_blocks(events)
}

/// Appends `n` in decimal to `out`.
fn append_decimal(out: &mut String, n: u32)
    ensures
        final(out)@ == old(out)@ + decimal(n as nat),
    decreases n,
{
    if n >= 10 {
        append_decimal(out, n / 10);
    }
    let d = (n % 10) as usize;
    let digits = "0123456789";
    proof {
        reveal_strlit("0123456789");
    }
    out.append(digits.substring_char(d, d + 1));
    proof {
        assert(digits@.subrange(d as int, d + 1) =~= seq![digit_char(d as nat)]);
        assert(final(out)@ =~= old(out)@ + decimal(n as nat));
    }
}

/// Appends the block of `e` to `out`.
fn append_event_block(out: &mut String, e: &Event)
    ensures
        final(out)@ == old(out)@ + event_block(e@),
{
    out.append("** ");
    out.append(e.title.as_str());
    out.append("\nSCHEDULED: <");
    append_decimal(out, e.start.year);
    out.append("-");
    append_decimal(out, e.start.month as u32);
    out.append("-");
    append_decimal(out, e.start.day as u32);
    out.append(">\n");
    assert(final(out)@ =~= old(out)@ + event_block(e@));
}

/// Appends to `writer` the outline document of `events`: the top heading,
/// then one block per event, in order.
pub fn write_org(events: Vec<Event>, writer: &mut String)
    ensures
        final(writer)@ == old(writer)@ + org_document(events_view(events@)),
{
    let ghost all = events_view(events@);
    writer.append("* Google Calendar\n");
    let ghost head = writer@;
    let mut i: usize = 0;
    proof {
        assert(all.take(0) =~= Seq::<EventView>::empty());
        assert(writer@ =~= head + event_blocks(all.take(0)));
    }
    while i < events.len()
        invariant
            all == events_view(events@),
            i <= events.len(),
            head == old(writer)@ + "* Google Calendar\n"@,
            writer@ == head + event_blocks(all.take(i as int)),
        decreases events.len() - i,
    {
        append_event_block(writer, &events[i]);
        proof {
            assert(all.take(i + 1).drop_last() =~= all.take(i as int));
            assert(all.take(i + 1).last() == events@[i as int]@);
        }
        i = i + 1;
        assert(writer@ =~= head + event_blocks(all.take(i as int)));
    }
    proof {
        assert(all.take(i as int) =~= all);
    }
    assert(writer@ =~= old(writer)@ + org_document(all));
}

} // verus!
