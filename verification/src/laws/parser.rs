//! Laws of reading commands and the numbers in them.
use vstd::prelude::*;

use crate::kitty_parser;
use crate::kitty_parser::{
    Action, Compression, DeleteTarget, Format, KittyCommand, Medium, Quiet,
};
use crate::text;

verus! {

// ── Numbers ────────────────────────────────────────────────────────────

/// Whether `b` is one of the ten decimal digits, which stand for 0 to 9 in order.
pub open spec fn stands_for(b: u8, d: int) -> bool {
    0 <= d <= 9 && b == 48 + d
}

/// A number is read digit by digit: one digit is its value, and a digit behind a
/// number makes ten times as much and its value, as long as that is a `u32`. A
/// leading `+` changes nothing.
pub proof fn law_number_is_read_in_decimal(s: Seq<u8>, b: u8, d: int)
    requires
        stands_for(b, d),
    ensures
        text::parsed_u32(seq![b]) == Some(d as u32),
        text::parsed_u32(s) matches Some(n) ==> text::parsed_u32(s.push(b)) == (if 10 * n + d
            <= u32::MAX {
            Some((10 * n + d) as u32)
        } else {
            None
        }),
        s.len() > 0 && s[0] != '+' as u8 ==> text::parsed_u32(seq!['+' as u8] + s)
            == text::parsed_u32(s),
{
    reveal_with_fuel(text::digits_value, 2);
    assert(seq![b].drop_last() =~= Seq::empty());
    assert(seq![b].last() == b);
    assert(text::all_digits(seq![b]));
    let plus = seq!['+' as u8] + s;
    assert(plus.skip(1) =~= s);
    if text::parsed_u32(s) is Some {
        let signed = s.len() > 0 && s[0] == '+' as u8;
        let body = if signed {
            s.skip(1)
        } else {
            s
        };
        let more = s.push(b);
        let longer = if signed {
            more.skip(1)
        } else {
            more
        };
        assert(longer =~= body.push(b));
        assert(longer.drop_last() =~= body);
        assert(text::all_digits(longer)) by {
            assert forall|i: int| 0 <= i < longer.len() implies text::is_digit(
                #[trigger] longer[i],
            ) by {
                if i < body.len() {
                    assert(longer[i] == body[i]);
                }
            }
        }
        assert(more[0] == s[0]);
    }
}

/// Nothing but digits behind an optional `+` is a number, and what is none stays
/// none however many digits follow.
pub proof fn law_other_text_is_no_number(s: Seq<u8>, i: int)
    ensures
        text::parsed_u32(Seq::empty()) is None,
        text::parsed_u32(seq!['+' as u8]) is None,
        0 <= i < s.len() && !(48 <= s[i] <= 57) && (i > 0 || s[0] != '+' as u8)
            ==> text::parsed_u32(s) is None,
{
    let plus = seq!['+' as u8];
    assert(plus.skip(1) =~= Seq::empty());
    if 0 <= i < s.len() && !(48 <= s[i] <= 57) && (i > 0 || s[0] != '+' as u8) {
        if s[0] == '+' as u8 {
            assert(s.skip(1)[i - 1] == s[i]);
        }
        assert(!text::is_digit(s[i]));
    }
}

/// A signed number is the number that its digits write, with the sign in front of
/// them, as long as that is an `i32`.
pub proof fn law_signed_number_has_its_sign(s: Seq<u8>)
    requires
        s.len() > 0,
    ensures
        s[0] != '-' as u8 ==> text::parsed_i32(s) == (match text::parsed_u32(s) {
            Some(n) if n <= i32::MAX => Some(n as i32),
            _ => None,
        }),
        s[0] != '+' as u8 ==> text::parsed_i32(seq!['-' as u8] + s) == (match text::parsed_u32(s) {
            Some(n) if n <= 0x8000_0000 => Some((-n) as i32),
            _ => None,
        }),
{
    let minus = seq!['-' as u8] + s;
    assert(minus.skip(1) =~= s);
}

/// A number is written digit by digit, the highest first and none of them a leading
/// zero.
pub proof fn law_number_is_written_in_decimal(n: nat, d: int)
    requires
        0 <= d <= 9,
    ensures
        text::decimal(d as nat).len() == 1,
        text::decimal(d as nat)[0] as int == 48 + d,
        n > 0 ==> text::decimal(10 * n + d as nat) == text::decimal(n).push(
            text::decimal(d as nat)[0],
        ),
{
    if n > 0 {
        let m: nat = 10 * n + d as nat;
        assert(m / 10 == n && m % 10 == d);
    }
}

/// A number that is written reads as itself.
pub proof fn law_written_number_reads_as_itself(n: u32)
    ensures
        text::parsed_u32(text::decimal(n as nat).map_values(|c: char| c as u8)) == Some(n),
        text::decimal(n as nat).len() > 0,
        n > 0 ==> text::decimal(n as nat)[0] != '0',
    decreases n,
{
    let bytes = text::decimal(n as nat).map_values(|c: char| c as u8);
    if n < 10 {
        law_number_is_read_in_decimal(Seq::empty(), (48 + n) as u8, n as int);
        assert(bytes =~= seq![(48 + n) as u8]);
    } else {
        let tenth = n / 10;
        let d = n % 10;
        law_written_number_reads_as_itself(tenth);
        let front = text::decimal(tenth as nat).map_values(|c: char| c as u8);
        law_number_is_read_in_decimal(front, (48 + d) as u8, d as int);
        assert(bytes =~= front.push((48 + d) as u8));
        assert(text::decimal(n as nat)[0] == text::decimal(tenth as nat)[0]);
    }
}

// ── Keys ───────────────────────────────────────────────────────────────

/// Whether `b` is a key of the protocol.
pub open spec fn is_key(b: u8) -> bool {
    let c = b as char;
    ||| c == 'a' || c == 'q' || c == 'i' || c == 'I' || c == 'p' || c == 'f' || c == 't'
    ||| c == 'o' || c == 'm' || c == 's' || c == 'v' || c == 'S' || c == 'O' || c == 'x'
    ||| c == 'y' || c == 'w' || c == 'h' || c == 'X' || c == 'Y' || c == 'c' || c == 'r'
    ||| c == 'z' || c == 'C' || c == 'U' || c == 'P' || c == 'Q' || c == 'H' || c == 'V'
    ||| c == 'd'
}

/// Whether two commands agree on what the key `key` says.
pub open spec fn agree_on(key: u8, a: KittyCommand, b: KittyCommand) -> bool {
    match key as char {
        'a' => a.action == b.action,
        'q' => a.quiet == b.quiet,
        'i' => a.image_id == b.image_id,
        'I' => a.image_number == b.image_number,
        'p' => a.placement_id == b.placement_id,
        'f' => a.format == b.format,
        't' => a.medium == b.medium,
        'o' => a.compression == b.compression,
        'm' => a.more_chunks == b.more_chunks,
        's' => a.width == b.width,
        'v' => a.height == b.height,
        'S' => a.data_size == b.data_size,
        'O' => a.data_offset == b.data_offset,
        'x' => a.src_x == b.src_x,
        'y' => a.src_y == b.src_y,
        'w' => a.src_w == b.src_w,
        'h' => a.src_h == b.src_h,
        'X' => a.offset_x == b.offset_x,
        'Y' => a.offset_y == b.offset_y,
        'c' => a.columns == b.columns,
        'r' => a.rows == b.rows,
        'z' => a.z_index == b.z_index,
        'C' => a.cursor_movement == b.cursor_movement,
        'U' => a.virtual_placement == b.virtual_placement,
        'P' => a.parent_id == b.parent_id,
        'Q' => a.parent_placement_id == b.parent_placement_id,
        'H' => a.horizontal_offset == b.horizontal_offset,
        'V' => a.vertical_offset == b.vertical_offset,
        'd' => a.delete == b.delete,
        _ => true,
    }
}

/// Whether a command that does not give the key `key` says of it what it stands
/// for by default.
pub open spec fn has_default(key: u8, cmd: KittyCommand) -> bool {
    match key as char {
        'a' => cmd.action == Action::Transmit,
        'q' => cmd.quiet == Quiet::Off,
        'i' => cmd.image_id == 0,
        'I' => cmd.image_number == 0,
        'p' => cmd.placement_id == 0,
        'f' => cmd.format == Format::Rgba,
        't' => cmd.medium == Medium::Direct,
        'o' => cmd.compression == Compression::Off,
        'm' => !cmd.more_chunks,
        's' => cmd.width == 0,
        'v' => cmd.height == 0,
        'S' => cmd.data_size == 0,
        'O' => cmd.data_offset == 0,
        'x' => cmd.src_x == 0,
        'y' => cmd.src_y == 0,
        'w' => cmd.src_w == 0,
        'h' => cmd.src_h == 0,
        'X' => cmd.offset_x == 0,
        'Y' => cmd.offset_y == 0,
        'c' => cmd.columns == 0,
        'r' => cmd.rows == 0,
        'z' => cmd.z_index == 0,
        'C' => cmd.cursor_movement == 0,
        'U' => cmd.virtual_placement == 0,
        'P' => cmd.parent_id == 0,
        'Q' => cmd.parent_placement_id == 0,
        'H' => cmd.horizontal_offset == 0,
        'V' => cmd.vertical_offset == 0,
        'd' => cmd.delete is None,
        _ => true,
    }
}

/// Whether a command says what the key `key` with the number `v` means.
pub open spec fn says_number(key: u8, v: u32, cmd: KittyCommand) -> bool {
    match key as char {
        'q' => {
            &&& v == 0 ==> cmd.quiet == Quiet::Off
            &&& v == 1 ==> cmd.quiet == Quiet::SuppressOk
            &&& v == 2 ==> cmd.quiet == Quiet::SuppressAll
        },
        'f' => {
            &&& v == 24 ==> cmd.format == Format::Rgb
            &&& v == 32 ==> cmd.format == Format::Rgba
            &&& v == 100 ==> cmd.format == Format::Png
        },
        'm' => cmd.more_chunks == (v != 0),
        'i' => cmd.image_id == v,
        'I' => cmd.image_number == v,
        'p' => cmd.placement_id == v,
        's' => cmd.width == v,
        'v' => cmd.height == v,
        'S' => cmd.data_size == v,
        'O' => cmd.data_offset == v,
        'x' => cmd.src_x == v,
        'y' => cmd.src_y == v,
        'w' => cmd.src_w == v,
        'h' => cmd.src_h == v,
        'X' => cmd.offset_x == v,
        'Y' => cmd.offset_y == v,
        'c' => cmd.columns == v,
        'r' => cmd.rows == v,
        'C' => cmd.cursor_movement == v,
        'U' => cmd.virtual_placement == v,
        'P' => cmd.parent_id == v,
        'Q' => cmd.parent_placement_id == v,
        _ => true,
    }
}

/// Whether a command says what the key `key` with the signed number `v` means.
pub open spec fn says_signed(key: u8, v: i32, cmd: KittyCommand) -> bool {
    match key as char {
        'z' => cmd.z_index == v,
        'H' => cmd.horizontal_offset == v,
        'V' => cmd.vertical_offset == v,
        _ => true,
    }
}

/// Whether a command says what the key `key` with the letter `v` means.
pub open spec fn says_letter(key: u8, v: u8, cmd: KittyCommand) -> bool {
    let letter = v as char;
    match key as char {
        'a' => {
            &&& letter == 't' ==> cmd.action == Action::Transmit
            &&& letter == 'T' ==> cmd.action == Action::TransmitAndDisplay
            &&& letter == 'q' ==> cmd.action == Action::Query
            &&& letter == 'p' ==> cmd.action == Action::Display
            &&& letter == 'd' ==> cmd.action == Action::Delete
            &&& letter == 'f' ==> cmd.action == Action::TransmitFrame
            &&& letter == 'a' ==> cmd.action == Action::AnimationControl
            &&& letter == 'c' ==> cmd.action == Action::ComposeFrames
        },
        't' => {
            &&& letter == 'd' ==> cmd.medium == Medium::Direct
            &&& letter == 'f' ==> cmd.medium == Medium::File
            &&& letter == 't' ==> cmd.medium == Medium::TempFile
            &&& letter == 's' ==> cmd.medium == Medium::SharedMemory
        },
        'o' => letter == 'z' ==> cmd.compression == Compression::Zlib,
        'd' => says_target(letter, cmd.delete),
        _ => true,
    }
}

/// Whether `target` is what the letter of `d=` means; other letters mean none.
pub open spec fn says_target(letter: char, target: Option<DeleteTarget>) -> bool {
    &&& letter == 'a' <==> target == Some(DeleteTarget::All)
    &&& letter == 'A' <==> target == Some(DeleteTarget::AllIncludingScrollback)
    &&& letter == 'i' <==> target == Some(DeleteTarget::ById)
    &&& letter == 'I' <==> target == Some(DeleteTarget::ByIdIncludingScrollback)
    &&& letter == 'n' <==> target == Some(DeleteTarget::ByNumber)
    &&& letter == 'N' <==> target == Some(DeleteTarget::ByNumberIncludingScrollback)
    &&& letter == 'c' <==> target == Some(DeleteTarget::AtCursor)
    &&& letter == 'C' <==> target == Some(DeleteTarget::AtCursorIncludingScrollback)
    &&& letter == 'f' <==> target == Some(DeleteTarget::AnimationFrames)
    &&& letter == 'F' <==> target == Some(DeleteTarget::AnimationFramesIncludingScrollback)
    &&& letter == 'p' <==> target == Some(DeleteTarget::ByPlacementId)
    &&& letter == 'P' <==> target == Some(DeleteTarget::ByPlacementIdIncludingScrollback)
    &&& letter == 'q' <==> target == Some(DeleteTarget::ByColumn)
    &&& letter == 'Q' <==> target == Some(DeleteTarget::ByColumnIncludingScrollback)
    &&& letter == 'r' <==> target == Some(DeleteTarget::ByRow)
    &&& letter == 'R' <==> target == Some(DeleteTarget::ByRowIncludingScrollback)
    &&& letter == 'x' <==> target == Some(DeleteTarget::ByCell)
    &&& letter == 'X' <==> target == Some(DeleteTarget::ByCellIncludingScrollback)
    &&& letter == 'y' <==> target == Some(DeleteTarget::ByCellZ)
    &&& letter == 'Y' <==> target == Some(DeleteTarget::ByCellZIncludingScrollback)
    &&& letter == 'z' <==> target == Some(DeleteTarget::ByZIndex)
    &&& letter == 'Z' <==> target == Some(DeleteTarget::ByZIndexIncludingScrollback)
}

/// Whether a value is one that its key can have.
pub open spec fn is_value_of(key: u8, value: Seq<u8>) -> bool {
    let number = text::parsed_u32(value);
    match key as char {
        'a' => value.len() > 0 && seq!['t', 'T', 'q', 'p', 'd', 'f', 'a', 'c'].contains(
            value[0] as char,
        ),
        't' => value.len() > 0 && seq!['d', 'f', 't', 's'].contains(value[0] as char),
        'o' => value.len() > 0 && value[0] as char == 'z',
        'd' => value.len() > 0,
        'q' => number is Some && number->0 <= 2,
        'f' => number is Some && (number->0 == 24 || number->0 == 32 || number->0 == 100),
        'z' | 'H' | 'V' => text::parsed_i32(value) is Some,
        _ => number is Some,
    }
}

/// One key says what it means with its value; with a value that it cannot have it
/// says nothing.
proof fn lemma_key_is_said(cmd: KittyCommand, key: u8, value: Seq<u8>)
    requires
        is_key(key),
    ensures
        ({
            let after = kitty_parser::with_key(cmd, key, value);
            &&& text::parsed_u32(value) is Some ==> says_number(
                key,
                text::parsed_u32(value)->0,
                after,
            )
            &&& text::parsed_i32(value) is Some ==> says_signed(
                key,
                text::parsed_i32(value)->0,
                after,
            )
            &&& value.len() > 0 ==> says_letter(key, value[0], after)
            &&& !is_value_of(key, value) ==> agree_on(key, after, cmd)
        }),
{
    let actions = seq!['t', 'T', 'q', 'p', 'd', 'f', 'a', 'c'];
    let media = seq!['d', 'f', 't', 's'];
    assert(actions[0] == 't' && actions[1] == 'T' && actions[2] == 'q' && actions[3] == 'p'
        && actions[4] == 'd' && actions[5] == 'f' && actions[6] == 'a' && actions[7] == 'c');
    assert(media[0] == 'd' && media[1] == 'f' && media[2] == 't' && media[3] == 's');
}

/// A key leaves alone what the other keys say.
proof fn lemma_key_leaves_others(cmd: KittyCommand, key: u8, value: Seq<u8>, other: u8)
    requires
        other != key,
    ensures
        agree_on(other, kitty_parser::with_key(cmd, key, value), cmd),
{
}

/// Pairs leave alone what a key says that is in none of them.
proof fn lemma_pairs_leave(cmd: KittyCommand, pairs: Seq<Seq<u8>>, key: u8)
    requires
        forall|i: int| 0 <= i < pairs.len() ==> !gives(#[trigger] pairs[i], key),
    ensures
        agree_on(key, kitty_parser::with_pairs(cmd, pairs), cmd),
    decreases pairs.len(),
{
    if pairs.len() > 0 {
        let next = kitty_parser::with_pair(cmd, pairs[0]);
        let rest = pairs.skip(1);
        assert forall|i: int| 0 <= i < rest.len() implies !gives(#[trigger] rest[i], key) by {
            assert(rest[i] == pairs[i + 1]);
        }
        lemma_pairs_leave(next, rest, key);
        assert(!gives(pairs[0], key));
        lemma_first_key(pairs[0]);
        if kitty_parser::before(pairs[0], '=' as u8).len() == 1 {
            lemma_key_leaves_others(
                cmd,
                pairs[0][0],
                kitty_parser::after(pairs[0], '=' as u8),
                key,
            );
        }
    }
}

// ── Commands ───────────────────────────────────────────────────────────

/// The pairs with a comma between each and the next.
pub open spec fn comma_separated(pairs: Seq<Seq<u8>>) -> Seq<u8>
    decreases pairs.len(),
{
    if pairs.len() == 0 {
        Seq::empty()
    } else if pairs.len() == 1 {
        pairs[0]
    } else {
        pairs[0] + seq![',' as u8] + comma_separated(pairs.skip(1))
    }
}

/// Whether a pair gives the key `key`: it is that letter alone, or followed by `=`.
pub open spec fn gives(pair: Seq<u8>, key: u8) -> bool {
    pair.len() > 0 && pair[0] == key && key != '=' as u8 && (pair.len() == 1 || pair[1]
        == '=' as u8)
}

/// Whether the pairs hold neither commas nor semicolons.
pub open spec fn are_pairs(pairs: Seq<Seq<u8>>) -> bool {
    forall|i: int, j: int|
        0 <= i < pairs.len() && 0 <= j < pairs[i].len() ==> {
            &&& #[trigger] pairs[i][j] != ',' as u8
            &&& pairs[i][j] != ';' as u8
        }
}

/// Whether `data` is the text of a command: its pairs, a semicolon and its payload,
/// or its pairs alone where it has none.
pub open spec fn is_command(data: Seq<u8>, pairs: Seq<Seq<u8>>, payload: Seq<u8>) -> bool {
    ||| data == comma_separated(pairs) + seq![';' as u8] + payload
    ||| data == comma_separated(pairs) && payload == Seq::<u8>::empty()
}

/// What a pair gives is what stands before its first `=`.
proof fn lemma_first_key(pair: Seq<u8>)
    ensures
        kitty_parser::before(pair, '=' as u8).len() == 1 <==> pair.len() > 0 && gives(
            pair,
            pair[0],
        ),
        pair.len() > 1 && gives(pair, pair[0]) ==> kitty_parser::after(pair, '=' as u8)
            == pair.skip(2),
{
    let eq = '=' as u8;
    kitty_parser::lemma_find_within(pair, eq);
    if pair.len() > 0 && gives(pair, pair[0]) {
        kitty_parser::lemma_find(pair, eq, 1);
    }
}

/// The pieces between the commas are the pairs.
proof fn lemma_pieces(pairs: Seq<Seq<u8>>)
    requires
        pairs.len() > 0,
        are_pairs(pairs),
    ensures
        kitty_parser::pieces(comma_separated(pairs), ',' as u8) == pairs,
        forall|i: int| 0 <= i < comma_separated(pairs).len() ==> #[trigger] comma_separated(
            pairs,
        )[i] != ';' as u8,
    decreases pairs.len(),
{
    let comma = ',' as u8;
    let s = comma_separated(pairs);
    let first = pairs[0];
    assert(forall|j: int| 0 <= j < first.len() ==> pairs[0][j] != comma && pairs[0][j]
        != ';' as u8);
    if pairs.len() == 1 {
        kitty_parser::lemma_find(s, comma, s.len() as int);
        assert(kitty_parser::pieces(s, comma) =~= pairs);
    } else {
        let rest = pairs.skip(1);
        assert(are_pairs(rest)) by {
            assert forall|i: int, j: int|
                0 <= i < rest.len() && 0 <= j < rest[i].len() implies #[trigger] rest[i][j] != comma
                && rest[i][j] != ';' as u8 by {
                assert(rest[i][j] == pairs[i + 1][j]);
            }
        }
        lemma_pieces(rest);
        let tail = comma_separated(rest);
        let at = first.len() as int;
        assert(s == first + seq![comma] + tail);
        assert(forall|j: int| 0 <= j < at ==> s[j] == pairs[0][j]);
        kitty_parser::lemma_find(s, comma, at);
        assert(s.take(at) =~= first);
        assert(s.skip(at + 1) =~= tail);
        assert(kitty_parser::pieces(s, comma) =~= seq![first] + rest);
        assert(pairs =~= seq![first] + rest);
        assert forall|i: int| 0 <= i < s.len() implies #[trigger] s[i] != ';' as u8 by {
            if i > at {
                assert(s[i] == tail[i - at - 1]);
            }
        }
    }
}

/// The text of a command falls into its pairs and its payload.
proof fn lemma_command_text(data: Seq<u8>, pairs: Seq<Seq<u8>>, payload: Seq<u8>)
    requires
        pairs.len() > 0,
        are_pairs(pairs),
        is_command(data, pairs, payload),
    ensures
        kitty_parser::before(data, ';' as u8) == comma_separated(pairs),
        kitty_parser::after(data, ';' as u8) == payload,
        kitty_parser::pieces(comma_separated(pairs), ',' as u8) == pairs,
{
    let s = comma_separated(pairs);
    lemma_pieces(pairs);
    assert(forall|j: int| 0 <= j < s.len() ==> data[j] == s[j]);
    kitty_parser::lemma_find(data, ';' as u8, s.len() as int);
    assert(data.take(s.len() as int) =~= s);
    if data.len() > s.len() {
        assert(data.skip(s.len() as int + 1) =~= payload);
    }
}

/// The payload of a command is what follows its semicolon, and a key that no pair
/// gives has its default.
pub proof fn law_absent_keys_have_defaults(
    data: Seq<u8>,
    pairs: Seq<Seq<u8>>,
    payload: Seq<u8>,
    cmd: KittyCommand,
    key: u8,
)
    requires
        pairs.len() > 0,
        are_pairs(pairs),
        is_command(data, pairs, payload),
        kitty_parser::parses_to(data, Some(cmd)),
        forall|i: int| 0 <= i < pairs.len() ==> !gives(#[trigger] pairs[i], key),
    ensures
        cmd.payload@ == payload,
        has_default(key, cmd),
        !cmd.pre_decoded,
{
    lemma_command_text(data, pairs, payload);
    lemma_pairs_leave(kitty_parser::blank(cmd.payload), pairs, key);
    kitty_parser::law_keys_keep_payload(kitty_parser::blank(cmd.payload), pairs);
}

/// The last pair that gives a key counts: the command says what that key means
/// with that value, whatever the other pairs.
pub proof fn law_last_pair_of_a_key_counts(
    data: Seq<u8>,
    pairs: Seq<Seq<u8>>,
    payload: Seq<u8>,
    cmd: KittyCommand,
    key: u8,
    value: Seq<u8>,
    at: int,
)
    requires
        is_key(key),
        are_pairs(pairs),
        0 <= at < pairs.len(),
        pairs[at] == seq![key, '=' as u8] + value,
        forall|i: int| at < i < pairs.len() ==> !gives(#[trigger] pairs[i], key),
        is_command(data, pairs, payload),
        kitty_parser::parses_to(data, Some(cmd)),
    ensures
        text::parsed_u32(value) is Some ==> says_number(key, text::parsed_u32(value)->0, cmd),
        text::parsed_i32(value) is Some ==> says_signed(key, text::parsed_i32(value)->0, cmd),
        value.len() > 0 ==> says_letter(key, value[0], cmd),
{
    lemma_command_text(data, pairs, payload);
    lemma_last_pair(kitty_parser::blank(cmd.payload), pairs, key, value, at);
}

proof fn lemma_last_pair(
    cmd: KittyCommand,
    pairs: Seq<Seq<u8>>,
    key: u8,
    value: Seq<u8>,
    at: int,
)
    requires
        is_key(key),
        0 <= at < pairs.len(),
        pairs[at] == seq![key, '=' as u8] + value,
        forall|i: int| at < i < pairs.len() ==> !gives(#[trigger] pairs[i], key),
    ensures
        ({
            let after = kitty_parser::with_pairs(cmd, pairs);
            &&& text::parsed_u32(value) is Some ==> says_number(
                key,
                text::parsed_u32(value)->0,
                after,
            )
            &&& text::parsed_i32(value) is Some ==> says_signed(
                key,
                text::parsed_i32(value)->0,
                after,
            )
            &&& value.len() > 0 ==> says_letter(key, value[0], after)
        }),
    decreases at,
{
    let rest = pairs.skip(1);
    let next = kitty_parser::with_pair(cmd, pairs[0]);
    assert forall|i: int| at - 1 < i < rest.len() && 0 <= i implies !gives(
        #[trigger] rest[i],
        key,
    ) by {
        assert(rest[i] == pairs[i + 1]);
    }
    if at == 0 {
        lemma_first_key(pairs[0]);
        assert(pairs[0].skip(2) =~= value);
        lemma_key_is_said(cmd, key, value);
        lemma_pairs_leave(next, rest, key);
    } else {
        assert(rest[at - 1] == pairs[at]);
        lemma_last_pair(next, rest, key, value, at - 1);
    }
}

/// A value that its key cannot have counts for nothing: the command says of the
/// key what it says without that pair.
pub proof fn law_unfit_value_counts_for_nothing(cmd: KittyCommand, key: u8, value: Seq<u8>)
    requires
        is_key(key),
        !is_value_of(key, value),
    ensures
        kitty_parser::with_pair(cmd, seq![key, '=' as u8] + value) == cmd,
{
    let pair = seq![key, '=' as u8] + value;
    lemma_first_key(pair);
    assert(pair.skip(2) =~= value);
    lemma_key_is_said(cmd, key, value);
}

/// A pair that is no key of the protocol followed by `=` counts for nothing: one
/// with a longer key, without a value, or with an unknown key.
pub proof fn law_malformed_pair_counts_for_nothing(cmd: KittyCommand, pair: Seq<u8>)
    requires
        pair.len() > 1 && pair[1] == '=' as u8 ==> !is_key(pair[0]),
    ensures
        kitty_parser::with_pair(cmd, pair) == cmd,
{
    lemma_first_key(pair);
    if pair.len() == 1 {
        kitty_parser::lemma_find_within(pair, '=' as u8);
        assert(kitty_parser::after(pair, '=' as u8) =~= Seq::empty());
        law_other_text_is_no_number(pair, 0);
    }
}

/// A command is refused exactly where its pairs are not UTF-8.
pub proof fn law_command_is_read_unless_not_utf8(
    data: Seq<u8>,
    pairs: Seq<Seq<u8>>,
    payload: Seq<u8>,
    r: Option<KittyCommand>,
)
    requires
        pairs.len() > 0,
        are_pairs(pairs),
        is_command(data, pairs, payload),
        kitty_parser::parses_to(data, r),
    ensures
        r is Some <==> vstd::utf8::valid_utf8(comma_separated(pairs)),
{
    lemma_command_text(data, pairs, payload);
}

} // verus!
