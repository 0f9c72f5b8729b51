//! Settings given as text: bus lists, id filters, baud rates.

use vstd::prelude::*;

use crate::text::{
    chars_of, decimal, hex, is_white, law_all_pairs_are_stripped, law_numbers_read_back,
    law_numeral_reads_back, law_reading_numbers, law_trimming_cuts_off_white_space,
    parse_number, parse_u32, split_on, split_text, starts_with_pairs, string_of, strip_prefix_text,
    strip_zero_and, trim_text, trimmed,
};

verus! {

/// The UART rate used when none is configured.
pub const DEFAULT_BAUD: u32 = 115_200;

/// The bits of a CAN id that a filter compares: all 29.
pub const ID_FILTER_MASK: u32 = 0x1FFF_FFFF;

/// The UART rate that a setting asks for: a decimal number, or else the
/// default.
pub open spec fn baud_of(setting: Option<Seq<char>>) -> u32 {
    match setting {
        Some(text) => match parse_u32(text, 10) {
            Some(rate) => rate,
            None => DEFAULT_BAUD,
        },
        None => DEFAULT_BAUD,
    }
}

/// The names in a list of texts that are not blank, trimmed, in order.
pub open spec fn names_in(pieces: Seq<Seq<char>>) -> Seq<Seq<char>>
    decreases pieces.len(),
{
    if pieces.len() == 0 {
        Seq::empty()
    } else {
        let names = names_in(pieces.drop_last());
        let name = trimmed(pieces.last());
        if name.len() == 0 {
            names
        } else {
            names.push(name)
        }
    }
}

/// The CAN id that one entry of a filter setting gives: a hexadecimal number,
/// with or without `0x` or `0X` in front.
pub open spec fn filter_id(piece: Seq<char>) -> Option<u32> {
    parse_u32(strip_zero_and(strip_zero_and(trimmed(piece), 'x'), 'X'), 16)
}

/// The CAN ids that the entries of a filter setting give, in order; entries
/// that give none are passed over.
pub open spec fn filter_ids(pieces: Seq<Seq<char>>) -> Seq<u32>
    decreases pieces.len(),
{
    if pieces.len() == 0 {
        Seq::empty()
    } else {
        let ids = filter_ids(pieces.drop_last());
        match filter_id(pieces.last()) {
            Some(id) => ids.push(id),
            None => ids,
        }
    }
}

/// The UART rate that a setting asks for.
pub fn parse_baud(setting: Option<&str>) -> (r: u32)
    ensures
        setting is None ==> r == baud_of(None),
        setting matches Some(text) ==> r == baud_of(Some(text@)),
        setting is None ==> r == 115_200,
        setting matches Some(text) ==> (parse_u32(text@, 10) == Some(r) || (parse_u32(text@, 10)
            is None && r == 115_200)),
{
    match setting {
        Some(text) => {
            let chars = chars_of(text);
            match parse_number(&chars, 10) {
                Some(rate) => rate,
                None => DEFAULT_BAUD,
            }
        },
        None => DEFAULT_BAUD,
    }
}

/// The bus names in a comma-separated list.
pub fn parse_ifaces(list: &str) -> (r: Vec<String>)
    ensures
        r.deep_view() == names_in(split_on(list@, ',')),
{
    let pieces = split_text(list, ',');
    let mut names: Vec<String> = Vec::new();
    let mut i: usize = 0;
    while i < pieces.len()
        invariant
            i <= pieces@.len(),
            names.deep_view() == names_in(pieces.deep_view().take(i as int)),
        decreases pieces@.len() - i,
    {
        let name = trim_text(&pieces[i]);
        let ghost before = names.deep_view();
        proof {
            assert(pieces.deep_view().take(i + 1).drop_last() =~= pieces.deep_view().take(i as int));
            assert(pieces.deep_view().take(i + 1).last() == pieces[i as int].deep_view());
            assert(pieces[i as int].deep_view() =~= pieces[i as int]@);
        }
        if name.len() > 0 {
            names.push(string_of(&name));
            assert(names.deep_view() =~= before.push(name@));
        }
        i += 1;
    }
    assert(pieces.deep_view().take(i as int) =~= pieces.deep_view());
    names
}

/// What to do about a filter setting.
#[derive(Debug, PartialEq, Eq)]
pub enum FilterPlan {
    /// No setting: receive every id.
    ReceiveAll,
    /// A setting without a single valid id: warn, and receive every id.
    NoValidIds,
    /// Receive only ids that agree with one of these on the masked bits.
    Whitelist { ids: Vec<u32>, mask: u32 },
}

/// Plans the id filter that a setting asks for.
pub fn plan_id_filter(setting: Option<&str>) -> (r: FilterPlan)
    ensures
        r is ReceiveAll <==> setting is None,
        r is NoValidIds <==> (setting matches Some(text) && filter_ids(split_on(text@, ',')).len()
            == 0),
        r matches FilterPlan::Whitelist { ids, mask } ==> (setting matches Some(text) && ids@
            == filter_ids(split_on(text@, ',')) && mask == ID_FILTER_MASK),
{
    match setting {
        None => FilterPlan::ReceiveAll,
        Some(text) => {
            let ids = parse_id_filter(text);
            if ids.len() == 0 {
                FilterPlan::NoValidIds
            } else {
                FilterPlan::Whitelist { ids, mask: ID_FILTER_MASK }
            }
        },
    }
}

/// The CAN ids in a comma-separated filter setting.
pub fn parse_id_filter(text: &str) -> (r: Vec<u32>)
    ensures
        r@ == filter_ids(split_on(text@, ',')),
{
    let pieces = split_text(text, ',');
    let mut ids: Vec<u32> = Vec::new();
    let mut i: usize = 0;
    while i < pieces.len()
        invariant
            i <= pieces@.len(),
            ids@ == filter_ids(pieces.deep_view().take(i as int)),
        decreases pieces@.len() - i,
    {
        proof {
            assert(pieces.deep_view().take(i + 1).drop_last() =~= pieces.deep_view().take(i as int));
            assert(pieces.deep_view().take(i + 1).last() == pieces[i as int].deep_view());
            assert(pieces[i as int].deep_view() =~= pieces[i as int]@);
        }
        let entry = trim_text(&pieces[i]);
        let lower = strip_prefix_text(&entry, 'x');
        let upper = strip_prefix_text(&lower, 'X');
        if let Some(id) = parse_number(&upper, 16) {
            ids.push(id);
        }
        i += 1;
    }
    assert(pieces.deep_view().take(i as int) =~= pieces.deep_view());
    ids
}

/// A rate written in decimal is the rate used; a setting that is missing or
/// no number means 115200.
pub proof fn law_baud_is_what_was_written(rate: u32, text: Seq<char>)
    ensures
        baud_of(Some(decimal(rate as nat))) == rate,
        parse_u32(text, 10) == Some(rate) ==> baud_of(Some(text)) == rate,
        parse_u32(text, 10) is None ==> baud_of(Some(text)) == 115_200,
        baud_of(None) == 115_200,
{
    law_reading_numbers(decimal(rate as nat), 10, rate);
}

/// Each piece of a list gives its trimmed text as a name, or none if it is
/// blank, and the names of a list are those of its parts, in order.
pub proof fn law_names_are_the_trimmed_pieces(
    first: Seq<Seq<char>>,
    second: Seq<Seq<char>>,
    piece: Seq<char>,
)
    ensures
        names_in(Seq::empty()) == Seq::<Seq<char>>::empty(),
        trimmed(piece).len() == 0 ==> names_in(seq![piece]) == Seq::<Seq<char>>::empty(),
        trimmed(piece).len() > 0 ==> names_in(seq![piece]) == seq![trimmed(piece)],
        names_in(first + second) == names_in(first) + names_in(second),
    decreases second.len(),
{
    assert(seq![piece].drop_last() =~= Seq::<Seq<char>>::empty());
    reveal_with_fuel(names_in, 2);
    assert(Seq::<Seq<char>>::empty().push(trimmed(piece)) =~= seq![trimmed(piece)]);
    if second.len() == 0 {
        assert(first + second =~= first);
        assert(names_in(first) + names_in(second) =~= names_in(first));
    } else {
        law_names_are_the_trimmed_pieces(first, second.drop_last(), piece);
        assert((first + second).drop_last() =~= first + second.drop_last());
        assert(names_in(first + second) =~= names_in(first) + names_in(second));
    }
}

/// Each entry of a filter gives its id, or none, and the ids of a filter are
/// those of its parts, in order.
pub proof fn law_filter_ids_are_those_of_the_entries(
    first: Seq<Seq<char>>,
    second: Seq<Seq<char>>,
    piece: Seq<char>,
    id: u32,
)
    ensures
        filter_ids(Seq::empty()) == Seq::<u32>::empty(),
        filter_id(piece) is None ==> filter_ids(seq![piece]) == Seq::<u32>::empty(),
        filter_id(piece) == Some(id) ==> filter_ids(seq![piece]) == seq![id],
        filter_ids(first + second) == filter_ids(first) + filter_ids(second),
    decreases second.len(),
{
    assert(seq![piece].drop_last() =~= Seq::<Seq<char>>::empty());
    reveal_with_fuel(filter_ids, 2);
    assert(Seq::<u32>::empty().push(id) =~= seq![id]);
    if second.len() == 0 {
        assert(first + second =~= first);
        assert(filter_ids(first) + filter_ids(second) =~= filter_ids(first));
    } else {
        law_filter_ids_are_those_of_the_entries(first, second.drop_last(), piece, id);
        assert((first + second).drop_last() =~= first + second.drop_last());
        assert(filter_ids(first + second) =~= filter_ids(first) + filter_ids(second));
    }
}

/// A hexadecimal number gives its value as an id, bare or with `0x` or `0X` in
/// front, and white space around an entry makes no difference.
pub proof fn law_filter_entries_are_hexadecimal(piece: Seq<char>, id: u32)
    ensures
        filter_id(hex(id as nat, 1)) == Some(id),
        filter_id(seq!['0', 'x'] + hex(id as nat, 1)) == Some(id),
        filter_id(seq!['0', 'X'] + hex(id as nat, 1)) == Some(id),
        filter_id(piece) == filter_id(trimmed(piece)),
{
    let s = hex(id as nat, 1);
    law_numbers_read_back(id as nat, 1);
    law_numeral_reads_back(id as nat, 16);
    law_reading_numbers(s, 16, id);
    let lower = seq!['0', 'x'] + s;
    let upper = seq!['0', 'X'] + s;
    lemma_trimmed_without_white_space(s);
    lemma_trimmed_without_white_space(lower);
    lemma_trimmed_without_white_space(upper);
    assert(lower.skip(2) =~= s);
    assert(upper.skip(2) =~= s);
    reveal_with_fuel(strip_zero_and, 2);
    lemma_trimmed_is_trimmed(piece);
}

/// What stands in an entry behind all `0x` and then all `0X` in front is read
/// as a hexadecimal number, and the entry gives an id exactly when that is
/// one. `n` and `m` are how often the two stand there.
pub proof fn law_filter_entries_behind_the_prefixes(piece: Seq<char>, n: int, m: int)
    requires
        starts_with_pairs(trimmed(piece), n, 'x'),
        !starts_with_pairs(trimmed(piece), n + 1, 'x'),
        starts_with_pairs(trimmed(piece).skip(2 * n), m, 'X'),
        !starts_with_pairs(trimmed(piece).skip(2 * n), m + 1, 'X'),
    ensures
        filter_id(piece) == parse_u32(trimmed(piece).skip(2 * n).skip(2 * m), 16),
{
    law_all_pairs_are_stripped(trimmed(piece), n, 'x');
    law_all_pairs_are_stripped(trimmed(piece).skip(2 * n), m, 'X');
}

proof fn lemma_trimmed_without_white_space(s: Seq<char>)
    requires
        s.len() > 0,
        !is_white(s[0]),
        !is_white(s.last()),
    ensures
        trimmed(s) == s,
{
}

proof fn lemma_trimmed_is_trimmed(s: Seq<char>)
    ensures
        trimmed(trimmed(s)) == trimmed(s),
{
    law_trimming_cuts_off_white_space(s);
}

/// A filter compares all 29 bits of an id.
pub proof fn law_filter_compares_every_bit()
    ensures
        ID_FILTER_MASK == 0x2000_0000 - 1,
        DEFAULT_BAUD == 115_200,
{
}

} // verus!
