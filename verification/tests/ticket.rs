use luckysix::convert_to_u256_arr;
use luckysix::ticket::{format_tickets, Ticket};
use luckysix::uint256::Uint256;

fn ticket(combination: [i32; 6], bet: u128) -> Ticket {
    Ticket { combination: convert_to_u256_arr(combination).unwrap(), bet: Uint256::from_u128(bet) }
}

#[test]
fn no_tickets_give_no_text() {
    assert_eq!(format_tickets(&[]), "");
}

#[test]
fn one_ticket_is_one_line_without_break() {
    let tickets = [ticket([1, 2, 3, 4, 5, 6], 15_000_000_000_000_000)];
    assert_eq!(format_tickets(&tickets), "[1, 2, 3, 4, 5, 6] for 0.015 eth");
}

#[test]
fn tickets_are_joined_by_line_breaks() {
    let tickets = [
        ticket([1, 2, 3, 4, 5, 6], 1_500_000_000_000_000_000),
        ticket([48, 47, 46, 45, 44, 43], 0),
        ticket([7, 14, 21, 28, 35, 42], 2_000_000_000_000_000_000),
    ];
    assert_eq!(
        format_tickets(&tickets),
        "[1, 2, 3, 4, 5, 6] for 1.5 eth\n[48, 47, 46, 45, 44, 43] for 0 eth\n[7, 14, 21, 28, 35, 42] for 2 eth"
    );
}
