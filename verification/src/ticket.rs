//! The tickets of a round as lines of text.

use crate::denomination::{denominated_text, format_amount, DenominationUnit};
use crate::text::decimal_text;
use crate::uint256::{decimal_string_of, Uint256};
use vstd::prelude::*;
use vstd::string::*;

verus! {

/// A played ticket: the six chosen numbers and the amount of wei bet on them.
#[derive(Clone, Copy, Debug, PartialEq, Eq)]
pub struct Ticket {
    pub combination: [Uint256; 6],
    pub bet: Uint256,
}

/// Numbers in decimal, a comma and a space between one and the next.
pub open spec fn joined_text(numbers: Seq<Uint256>) -> Seq<char>
    decreases numbers.len(),
{
    if numbers.len() == 0 {
        Seq::empty()
    } else if numbers.len() == 1 {
        decimal_text(numbers[0]@)
    } else {
        joined_text(numbers.drop_last()) + seq![',', ' '] + decimal_text(numbers.last()@)
    }
}

/// A ticket as text: its numbers as a list in square brackets, the word
/// `for`, and the bet in eth.
pub open spec fn ticket_text(ticket: Ticket) -> Seq<char> {
    seq!['['] + joined_text(ticket.combination@) + seq![']', ' ', 'f', 'o', 'r', ' ']
        + denominated_text(ticket.bet@, DenominationUnit::Eth)
}

/// Tickets as text, one to a line, with no line break after the last.
pub open spec fn tickets_text(tickets: Seq<Ticket>) -> Seq<char>
    decreases tickets.len(),
{
    if tickets.len() == 0 {
        Seq::empty()
    } else if tickets.len() == 1 {
        ticket_text(tickets[0])
    } else {
        tickets_text(tickets.drop_last()) + seq!['\n'] + ticket_text(tickets.last())
    }
}

fn append_ticket(out: &mut String, ticket: &Ticket)
    ensures
        final(out)@ == old(out)@ + ticket_text(*ticket),
{
    proof {
        reveal_strlit("[");
        reveal_strlit(", ");
        reveal_strlit("] for ");
    }
    out.append("[");
    let ghost start = out@;
    let mut i: usize = 0;
    while i < 6
        invariant
            i <= 6,
            out@ == start + joined_text(ticket.combination@.subrange(0, i as int)),
            ", "@ == seq![',', ' '],
        decreases 6 - i,
    {
        proof {
            let next = ticket.combination@.subrange(0, i + 1);
            assert(next.drop_last() =~= ticket.combination@.subrange(0, i as int));
        }
        if i > 0 {
            out.append(", ");
        }
        let number = decimal_string_of(ticket.combination[i]);
        out.append(number.as_str());
        i = i + 1;
    }
    assert(ticket.combination@.subrange(0, 6) =~= ticket.combination@);
    out.append("] for ");
    let bet = format_amount(ticket.bet, DenominationUnit::Eth);
    out.append(bet.as_str());
}

/// Writes the tickets of a round, one to a line: nothing for no tickets, and
/// no line break after the last.
pub fn format_tickets(tickets: &[Ticket]) -> (r: String)
    ensures
        r@ == tickets_text(tickets@),
{
    let mut out = String::new();
    proof {
        reveal_strlit("\n");
    }
    let mut i: usize = 0;
    while i < tickets.len()
        invariant
            i <= tickets@.len(),
            out@ == tickets_text(tickets@.subrange(0, i as int)),
            "\n"@ == seq!['\n'],
        decreases tickets@.len() - i,
    {
        proof {
            let next = tickets@.subrange(0, i + 1);
            assert(next.drop_last() =~= tickets@.subrange(0, i as int));
        }
        if i > 0 {
            out.append("\n");
        }
        append_ticket(&mut out, &tickets[i]);
        i = i + 1;
    }
    assert(tickets@.subrange(0, tickets@.len() as int) =~= tickets@);
    out
}

} // verus!
