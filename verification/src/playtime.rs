//! Play time: how it is stored beside a save slot, shown, and added up.

use vstd::prelude::*;

use crate::text;

verus! {

/// The play time that the contents of a play-time file stand for: decimal
/// seconds with white space around them, 0 for anything else.
pub open spec fn stored_playtime(buf: Seq<u8>) -> u64 {
    if vstd::utf8::valid_utf8(buf) {
        match text::parsed_u64(text::trimmed(vstd::utf8::decode_utf8(buf))) {
            Some(secs) => secs,
            None => 0,
        }
    } else {
        0
    }
}

/// The play time of a save slot, given the contents of its play-time file if
/// there is one.
pub open spec fn slot_playtime(slot: i32, file: Option<&[u8]>) -> u64 {
    if slot > 0 && file is Some {
        stored_playtime(file->0@)
    } else {
        0
    }
}

/// The contents of a play-time file.
pub open spec fn playtime_text(secs: u64) -> Seq<char> {
    text::decimal(secs as nat).push('\n')
}

/// The name of a save slot's file.
pub open spec fn slot_file(slot: int, suffix: Seq<char>) -> Seq<char> {
    text::signed_decimal(slot) + suffix
}

/// Read the contents of a play-time file.
pub fn parse_playtime_bytes(buf: &[u8]) -> (secs: u64)
    ensures
        secs == stored_playtime(buf@),
{
    match core::str::from_utf8(buf) {
        Ok(s) => {
            let chars: Vec<char> = text::chars_of(s);
            let body: Vec<char> = text::trim(&chars);
            match text::parse_u64(&body) {
                Some(secs) => secs,
                None => 0,
            }
        },
        Err(_) => 0,
    }
}

/// The play time of a save slot, given the contents of its play-time file if
/// there is one.
pub fn read_playtime_secs(slot: i32, file: Option<&[u8]>) -> (secs: u64)
    ensures
        secs == slot_playtime(slot, file),
{
    if slot <= 0 {
        return 0;
    }
    match file {
        Some(buf) => parse_playtime_bytes(buf),
        None => 0,
    }
}

/// What to write to a save slot's play-time file; slots up to 0 have none.
pub fn write_playtime_secs(slot: i32, secs: u64) -> (r: Option<String>)
    ensures
        r is Some <==> slot > 0,
        r matches Some(text) ==> text@ == playtime_text(secs),
{
    if slot <= 0 {
        return None;
    }
    let mut out: String = String::new();
    text::push_decimal(&mut out, secs);
    out.push('\n');
    assert(out@ =~= playtime_text(secs));
    Some(out)
}

/// The name of the file that a slot is saved in.
pub fn save_file_name(slot: i32) -> (name: String)
    ensures
        name@ == slot_file(slot as int, ".rpg"@),
{
    let mut out: String = String::new();
    text::push_signed_decimal(&mut out, slot as i64);
    out.push_str(".rpg");
    assert(out@ =~= slot_file(slot as int, ".rpg"@));
    out
}

/// The name of the file that a slot's play time is stored in.
pub fn playtime_file_name(slot: i32) -> (name: String)
    ensures
        name@ == slot_file(slot as int, ".playtime"@),
{
    let mut out: String = String::new();
    text::push_signed_decimal(&mut out, slot as i64);
    out.push_str(".playtime");
    assert(out@ =~= slot_file(slot as int, ".playtime"@));
    out
}

/// A play-time file that was written reads back as the same play time.
pub proof fn law_playtime_reads_back(secs: u64, file: Seq<u8>)
    requires
        file == vstd::utf8::encode_utf8(playtime_text(secs)),
    ensures
        stored_playtime(file) == secs,
{
    let shown = playtime_text(secs);
    vstd::utf8::encode_utf8_valid_utf8(shown);
    vstd::utf8::encode_utf8_decode_utf8(shown);
    text::lemma_decimal(secs as nat);
    text::law_decimal_reads_back(secs);
    let digits = text::decimal(secs as nat);
    assert(shown[0] == digits[0]);
    assert(text::is_digit(digits[0]));
    assert(text::trimmed_start(shown) == shown);
    assert(shown.drop_last() =~= digits);
    assert(text::is_digit(digits[digits.len() - 1]));
    assert(text::trimmed_end(digits) == digits);
    assert(text::trimmed_end(shown) == digits);
}

/// Slots above 0 have the play time of their file, if there is one; all others
/// have none.
pub proof fn law_slots_have_play_times(slot: i32, file: Option<&[u8]>)
    ensures
        slot <= 0 || file is None ==> slot_playtime(slot, file) == 0,
        slot > 0 && file is Some ==> slot_playtime(slot, file) == stored_playtime(file->0@),
{
}

/// The file of a slot is named by its number and what it holds.
pub proof fn law_slots_have_their_files(slot: int, suffix: Seq<char>)
    requires
        slot > 0,
    ensures
        slot_file(slot, suffix) == text::decimal(slot as nat) + suffix,
{
}

/// A play time is stored in decimal, on a line of its own.
pub proof fn law_play_time_is_a_line(secs: u64)
    ensures
        playtime_text(secs).last() == '\n',
        playtime_text(secs).drop_last() == text::decimal(secs as nat),
{
    assert(playtime_text(secs).drop_last() =~= text::decimal(secs as nat));
}

} // verus!
