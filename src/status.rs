//! Texts shown for the collection: the status line of the selected item and
//! the label of each item in the list.
use vstd::prelude::*;
use vstd::string::StringExecFns;

verus! {

pub open spec fn digit_char(d: nat) -> char {
    if d == 0 {
        '0'
    } else if d == 1 {
        '1'
    } else if d == 2 {
        '2'
    } else if d == 3 {
        '3'
    } else if d == 4 {
        '4'
    } else if d == 5 {
        '5'
    } else if d == 6 {
        '6'
    } else if d == 7 {
        '7'
    } else if d == 8 {
        '8'
    } else {
        '9'
    }
}

/// The decimal digits of `n`, without leading zeros.
pub open spec fn decimal(n: nat) -> Seq<char>
    decreases n,
{
    if n < 10 {
        seq![digit_char(n)]
    } else {
        decimal(n / 10).push(digit_char(n % 10))
    }
}

fn digit_str(d: u64) -> (r: &'static str)
    requires
        d < 10,
    ensures
        r@ == seq![digit_char(d as nat)],
{
    if d == 0 {
        proof {
            reveal_strlit("0");
        }
        "0"
    } else if d == 1 {
        proof {
            reveal_strlit("1");
        }
        "1"
    } else if d == 2 {
        proof {
            reveal_strlit("2");
        }
        "2"
    } else if d == 3 {
        proof {
            reveal_strlit("3");
        }
        "3"
    } else if d == 4 {
        proof {
            reveal_strlit("4");
        }
        "4"
    } else if d == 5 {
        proof {
            reveal_strlit("5");
        }
        "5"
    } else if d == 6 {
        proof {
            reveal_strlit("6");
        }
        "6"
    } else if d == 7 {
        proof {
            reveal_strlit("7");
        }
        "7"
    } else if d == 8 {
        proof {
            reveal_strlit("8");
        }
        "8"
    } else {
        proof {
            reveal_strlit("9");
        }
        "9"
    }
}

/// Appends the decimal digits of `n` to `out`.
pub fn write_decimal(n: u64, out: &mut String)
    ensures
        final(out)@ == old(out)@ + decimal(n as nat),
    decreases n,
{
    if n >= 10 {
        write_decimal(n / 10, out);
    }
    out.append(digit_str(n % 10));
    assert(final(out)@ =~= old(out)@ + decimal(n as nat));
}

/// The status line of an item: `name - date, size KB event`, with the size
/// given in bytes and shown in whole kilobytes (rounded down), and the event
/// name empty when the item belongs to none.
pub open spec fn status_line_of(name: Seq<char>, date: Seq<char>, size: nat, event: Seq<char>) -> Seq<
    char,
> {
    name + " - "@ + date + ", "@ + decimal(size / 1024) + " KB "@ + event
}

/// Builds the status line of an item.
pub fn status_line(name: &str, date: &str, size: u64, event: &str) -> (r: String)
    ensures
        r@ == status_line_of(name@, date@, size as nat, event@),
{
    proof {
        reveal_strlit(" - ");
        reveal_strlit(", ");
        reveal_strlit(" KB ");
    }
    let mut r = String::from_str(name);
    r.append(" - ");
    r.append(date);
    r.append(", ");
    write_decimal(size / 1024, &mut r);
    r.append(" KB ");
    r.append(event);
    r
}

/// The calendar sign that marks an item belonging to an event in the list.
pub open spec fn event_mark() -> Seq<char> {
    seq!['\u{1F4C5}']
}

/// The list label of an item: its text, marked when it belongs to an event.
pub fn item_label(item_string: &str, in_event: bool) -> (r: String)
    ensures
        r@ == (if in_event {
            event_mark() + item_string@
        } else {
            item_string@
        }),
{
    if in_event {
        proof {
            reveal_strlit("\u{1F4C5}");
        }
        let mut r = String::from_str("\u{1F4C5}");
        r.append(item_string);
        r
    } else {
        String::from_str(item_string)
    }
}

} // verus!
