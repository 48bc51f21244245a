//! What the two display modes show; the terminal itself is driven outside
//! the library.

use vstd::prelude::*;

use crate::conversation::{joined_transcript, role_name, status_marker, ConversationTracker, ItemView};

verus! {

pub open spec fn digit_char(d: nat) -> char {
    if d == 0 {
        '0'
    } else if d == 1 {
        '1'
    } else if d == 2 {
        '2'
    } else if d == 3 {
        '3'
    } else if d == 4 {
        '4'
    } else if d == 5 {
        '5'
    } else if d == 6 {
        '6'
    } else if d == 7 {
        '7'
    } else if d == 8 {
        '8'
    } else {
        '9'
    }
}

/// Decimal text of `n`, without leading zeros.
pub open spec fn decimal_text(n: nat) -> Seq<char>
    decreases n,
{
    if n < 10 {
        seq![digit_char(n)]
    } else {
        decimal_text(n / 10) + seq![digit_char(n % 10)]
    }
}

fn digit_str(d: usize) -> (r: &'static str)
    requires
        d < 10,
    ensures
        r@ == seq![digit_char(d as nat)],
{
    proof {
        reveal_strlit("0");
        reveal_strlit("1");
        reveal_strlit("2");
        reveal_strlit("3");
        reveal_strlit("4");
        reveal_strlit("5");
        reveal_strlit("6");
        reveal_strlit("7");
        reveal_strlit("8");
        reveal_strlit("9");
    }
    if d == 0 {
        "0"
    } else if d == 1 {
        "1"
    } else if d == 2 {
        "2"
    } else if d == 3 {
        "3"
    } else if d == 4 {
        "4"
    } else if d == 5 {
        "5"
    } else if d == 6 {
        "6"
    } else if d == 7 {
        "7"
    } else if d == 8 {
        "8"
    } else {
        "9"
    }
}

/// Writes `n` in decimal.
pub fn decimal(n: usize) -> (r: String)
    ensures
        r@ == decimal_text(n as nat),
    decreases n,
{
    if n < 10 {
        digit_str(n).to_owned()
    } else {
        let mut s = decimal(n / 10);
        s.append(digit_str(n % 10));
        s
    }
}

/// The transcript line of the item at position `index`:
/// `<index> <Role>: <transcript><status marker>`.
pub open spec fn line_text(index: nat, it: ItemView) -> Seq<char> {
    decimal_text(index) + " "@ + role_name(it.role) + ": "@ + joined_transcript(it.content) + status_marker(
        it.status,
    )
}

impl ConversationTracker {
    /// The transcript line for position `index` of the arrival order, or
    /// `None` when that id has no item.
    pub fn render_line(&self, index: usize) -> (r: Option<String>)
        requires
            index < self@.order.len(),
        ensures
            match self@.items.get(self@.order[index as int]) {
                Some(it) => r is Some && r->Some_0@ == line_text(index as nat, it),
                None => r is None,
            },
    {
        let id = self.item_id_at(index);
        match self.get_item(id.as_str()) {
            None => None,
            Some(item) => {
                let mut line = decimal(index);
                line.append(" ");
                line.append(item.role.name());
                line.append(": ");
                match item.get_content_transcript() {
                    Some(t) => line.append(t.as_str()),
                    None => {},
                }
                line.append(item.status.marker());
                proof {
                    reveal_strlit("");
                }
                Some(line)
            },
        }
    }
}

/// The console display's memory of the events it has shown: consecutive
/// events of one type share a line and are counted.
pub struct ConsoleTally {
    previous_event: String,
    consecutive_count: u64,
    current_line: u64,
}

impl ConsoleTally {
    pub closed spec fn previous_spec(&self) -> Seq<char> {
        self.previous_event@
    }

    pub closed spec fn count_spec(&self) -> u64 {
        self.consecutive_count
    }

    pub closed spec fn line_spec(&self) -> u64 {
        self.current_line
    }

    /// Nothing shown yet.
    pub fn new() -> (r: ConsoleTally)
        ensures
            r.previous_spec() == Seq::<char>::empty(),
            r.count_spec() == 1,
            r.line_spec() == 0,
    {
        ConsoleTally { previous_event: String::new(), consecutive_count: 1, current_line: 0 }
    }

    /// Records an event of `event_type`; returns the screen row to draw it
    /// on and how many events of that type came in a row. A new type moves
    /// to the next line and restarts the count; counters stop at their maximum.
    pub fn observe(&mut self, event_type: &str) -> (r: (u64, u64))
        ensures
            final(self).previous_spec() == event_type@,
            event_type@ != old(self).previous_spec() ==> final(self).count_spec() == 1 && final(self).line_spec()
                == (if old(self).line_spec() < u64::MAX {
                old(self).line_spec() + 1
            } else {
                old(self).line_spec() as int
            }),
            event_type@ == old(self).previous_spec() ==> final(self).line_spec() == old(self).line_spec()
                && final(self).count_spec() == (if old(self).count_spec() < u64::MAX {
                old(self).count_spec() + 1
            } else {
                old(self).count_spec() as int
            }),
            r.0 == (if final(self).line_spec() > 0 {
                final(self).line_spec() - 1
            } else {
                0
            }),
            r.1 == final(self).count_spec(),
    {
        if !(self.previous_event == event_type.to_owned()) {
            self.consecutive_count = 1;
            self.current_line = self.current_line.saturating_add(1);
        } else {
            self.consecutive_count = self.consecutive_count.saturating_add(1);
        }
        self.previous_event = event_type.to_owned();
        let row = if self.current_line > 0 {
            self.current_line - 1
        } else {
            0
        };
        (row, self.consecutive_count)
    }
}

} // verus!
