//! Text for showing players.

use crate::text::{decimal, decimal_string};
use crate::types::MatchPlayer;
use vstd::prelude::*;
use vstd::string::{StrSliceExecFns, StringExecFns};

verus! {

/// `name` cut for a column: a name of more than `max_length` characters is
/// its first `truncate_at` characters followed by three dots, any other name
/// is itself.
pub open spec fn truncated(name: Seq<char>, max_length: nat, truncate_at: nat) -> Seq<char> {
    if name.len() > max_length {
        name.take(
            if truncate_at < name.len() {
                truncate_at as int
            } else {
                name.len() as int
            },
        ) + "..."@
    } else {
        name
    }
}

/// Cuts a name that is too long for its column.
pub fn truncate_name(name: &str, max_length: usize, truncate_at: usize) -> (r: String)
    ensures
        r@ == truncated(name@, max_length as nat, truncate_at as nat),
{
    let len = name.unicode_len();
    if len > max_length {
        let keep = if truncate_at < len {
            truncate_at
        } else {
            len
        };
        String::from_str(name.substring_char(0, keep)).concat("...")
    } else {
        String::from_str(name)
    }
}

/// How a hero is shown: its number, or a dash while unknown.
pub open spec fn hero_text(hero_id: u32) -> Seq<char> {
    if hero_id != 0 {
        decimal(hero_id as nat)
    } else {
        "-"@
    }
}

/// Shows a hero: its number, or a dash while unknown.
pub fn format_hero_id(hero_id: u32) -> (r: String)
    ensures
        r@ == hero_text(hero_id),
{
    if hero_id > 0 {
        decimal_string(hero_id as u64)
    } else {
        String::from_str("-")
    }
}

/// Longest name shown in full.
pub const MAX_NAME_LENGTH: usize = 30;

/// Number of characters kept of a longer name.
pub const TRUNCATE_LENGTH: usize = 27;

/// Upper border of a team table.
pub const TABLE_TOP: &'static str =
    "┌──────┬────────────────────────────────┬──────────┬──────────────┐";

/// Column titles of a team table.
pub const TABLE_HEADER: &'static str =
    "│ Slot │           Player               │   Hero   │  Account ID  │";

/// Line between the titles and the rows of a team table.
pub const TABLE_SEPARATOR: &'static str =
    "├──────┼────────────────────────────────┼──────────┼──────────────┤";

/// Lower border of a team table.
pub const TABLE_BOTTOM: &'static str =
    "└──────┴────────────────────────────────┴──────────┴──────────────┘";

/// `n` spaces.
pub open spec fn spaces(n: int) -> Seq<char> {
    Seq::new(
        if n > 0 {
            n as nat
        } else {
            0
        },
        |i: int| ' ',
    )
}

/// Where a text stands in a column that is wider than the text.
#[derive(Debug, Clone, Copy, PartialEq, Eq, Structural)]
pub enum Align {
    /// At the left edge.
    Left,
    /// In the middle; an odd space goes to the right.
    Center,
    /// At the right edge.
    Right,
}

/// Number of spaces put before a text of `len` characters in a column of
/// `width`.
pub open spec fn lead(align: Align, len: int, width: int) -> int {
    if len >= width {
        0
    } else {
        match align {
            Align::Left => 0,
            Align::Center => (width - len) / 2,
            Align::Right => width - len,
        }
    }
}

/// `text` filled with spaces to `width` characters; a text that is as wide
/// or wider is itself.
pub open spec fn aligned(text: Seq<char>, align: Align, width: int) -> Seq<char> {
    if text.len() >= width {
        text
    } else {
        spaces(lead(align, text.len() as int, width)) + text + spaces(
            width - text.len() - lead(align, text.len() as int, width),
        )
    }
}

fn push_spaces(out: &mut String, n: usize)
    ensures
        final(out)@ == old(out)@ + spaces(n as int),
{
    let mut i: usize = 0;
    proof {
        reveal_strlit(" ");
        assert(out@ =~= old(out)@ + spaces(0));
    }
    while i < n
        invariant
            i <= n,
            " "@ == seq![' '],
            out@ == old(out)@ + spaces(i as int),
        decreases n - i,
    {
        out.append(" ");
        i += 1;
        proof {
            assert(out@ =~= old(out)@ + spaces(i as int));
        }
    }
}

/// Appends `text` to `out`, filled with spaces to `width` characters.
pub fn push_aligned(out: &mut String, text: &str, align: Align, width: usize)
    ensures
        final(out)@ == old(out)@ + aligned(text@, align, width as int),
{
    let len = text.unicode_len();
    if len >= width {
        out.append(text);
    } else {
        let gap = width - len;
        let before = match align {
            Align::Left => 0,
            Align::Center => gap / 2,
            Align::Right => gap,
        };
        push_spaces(out, before);
        out.append(text);
        push_spaces(out, gap - before);
        proof {
            assert(final(out)@ =~= old(out)@ + aligned(text@, align, width as int));
        }
    }
}

/// The table row of a player: seat, name, hero and account number between
/// the column bars.
pub open spec fn row_text(p: MatchPlayer) -> Seq<char> {
    "│ "@ + aligned(decimal(p.player_slot as nat), Align::Center, 4) + " │ "@ + aligned(
        truncated(p.steam_name@, MAX_NAME_LENGTH as nat, TRUNCATE_LENGTH as nat),
        Align::Left,
        30,
    ) + " │ "@ + aligned(hero_text(p.hero_id), Align::Center, 8) + " │ "@ + aligned(
        decimal(p.account_id as nat),
        Align::Right,
        12,
    ) + " │"@
}

/// Writes the table row of a player.
pub fn player_row(player: &MatchPlayer) -> (row: String)
    ensures
        row@ == row_text(*player),
{
    let name = truncate_name(player.steam_name.as_str(), MAX_NAME_LENGTH, TRUNCATE_LENGTH);
    let hero = format_hero_id(player.hero_id);
    let slot = decimal_string(player.player_slot as u64);
    let account = decimal_string(player.account_id as u64);
    let mut row = String::from_str("│ ");
    push_aligned(&mut row, slot.as_str(), Align::Center, 4);
    row.append(" │ ");
    push_aligned(&mut row, name.as_str(), Align::Left, 30);
    row.append(" │ ");
    push_aligned(&mut row, hero.as_str(), Align::Center, 8);
    row.append(" │ ");
    push_aligned(&mut row, account.as_str(), Align::Right, 12);
    row.append(" │");
    row
}

/// The lines of a team's table: the title, the upper border, the column
/// titles, the separator, one row per player in the given order, and the
/// lower border.
pub open spec fn is_team_table(lines: Seq<String>, title: Seq<char>, players: Seq<MatchPlayer>) -> bool {
    &&& lines.len() == players.len() + 5
    &&& lines[0]@ == title
    &&& lines[1]@ == TABLE_TOP@
    &&& lines[2]@ == TABLE_HEADER@
    &&& lines[3]@ == TABLE_SEPARATOR@
    &&& forall|i: int| 0 <= i < players.len() ==> (#[trigger] lines[4 + i])@ == row_text(players[i])
    &&& lines.last()@ == TABLE_BOTTOM@
}

/// Writes the lines of a team's table.
pub fn team_table(title: &str, players: &[MatchPlayer]) -> (lines: Vec<String>)
    ensures
        is_team_table(lines@, title@, players@),
{
    let mut lines: Vec<String> = Vec::new();
    lines.push(String::from_str(title));
    lines.push(String::from_str(TABLE_TOP));
    lines.push(String::from_str(TABLE_HEADER));
    lines.push(String::from_str(TABLE_SEPARATOR));
    let mut i: usize = 0;
    while i < players.len()
        invariant
            i <= players.len(),
            lines@.len() == i + 4,
            lines@[0]@ == title@,
            lines@[1]@ == TABLE_TOP@,
            lines@[2]@ == TABLE_HEADER@,
            lines@[3]@ == TABLE_SEPARATOR@,
            forall|j: int| 0 <= j < i ==> (#[trigger] lines@[4 + j])@ == row_text(players@[j]),
        decreases players.len() - i,
    {
        lines.push(player_row(&players[i]));
        i += 1;
    }
    lines.push(String::from_str(TABLE_BOTTOM));
    lines
}

} // verus!
