//! The funding-account listing: decimal rendering, the per-account
//! line, grouping lines by authority, and the final report text.

use vstd::prelude::*;
use vstd::string::{StrSliceExecFns, StringExecFns};

use crate::record::Exchange;

verus! {

/// The decimal digit character of a value below ten.
pub open spec fn digit_char(d: int) -> char {
    ((48 + d) as u8) as char
}

/// The decimal digits of a non-negative number, most significant
/// first.
pub open spec fn dec_digits(n: int) -> Seq<char>
    decreases n,
{
    if n < 10 {
        seq![digit_char(n)]
    } else {
        dec_digits(n / 10).push(digit_char(n % 10))
    }
}

/// One decimal digit as a string slice.
fn digit_str(d: u16) -> (r: &'static str)
    requires
        d < 10,
    ensures
        r@ == seq![digit_char(d as int)],
{
    proof {
        reveal_strlit("0");
        reveal_strlit("1");
        reveal_strlit("2");
        reveal_strlit("3");
        reveal_strlit("4");
        reveal_strlit("5");
        reveal_strlit("6");
        reveal_strlit("7");
        reveal_strlit("8");
        reveal_strlit("9");
    }
    if d == 0 {
        "0"
    } else if d == 1 {
        "1"
    } else if d == 2 {
        "2"
    } else if d == 3 {
        "3"
    } else if d == 4 {
        "4"
    } else if d == 5 {
        "5"
    } else if d == 6 {
        "6"
    } else if d == 7 {
        "7"
    } else if d == 8 {
        "8"
    } else {
        "9"
    }
}

/// A 16-bit number in decimal.
pub fn u16_to_string(n: u16) -> (r: String)
    ensures
        r@ == dec_digits(n as int),
    decreases n,
{
    if n < 10 {
        String::from_str(digit_str(n))
    } else {
        let mut s = u16_to_string(n / 10);
        s.append(digit_str(n % 10));
        proof {
            assert(s@ =~= dec_digits(n as int));
        }
        s
    }
}

/// The lower-case venue name.
pub open spec fn venue_name_spec(exchange: Exchange) -> Seq<char> {
    match exchange {
        Exchange::Drift => "drift"@,
        Exchange::Mango => "mango"@,
    }
}

pub fn venue_name(exchange: &Exchange) -> (r: &'static str)
    ensures
        r@ == venue_name_spec(*exchange),
{
    match exchange {
        Exchange::Drift => "drift",
        Exchange::Mango => "mango",
    }
}

/// The listing line of one funding account:
/// `<address>: <id> <market_index> <venue> (<discriminant>)`.
pub open spec fn listing_line_spec(
    address: Seq<char>,
    id: u16,
    market_index: u16,
    exchange: Exchange,
) -> Seq<char> {
    address + ": "@ + dec_digits(id as int) + " "@ + dec_digits(market_index as int) + " "@
        + venue_name_spec(exchange) + " ("@ + dec_digits(
        exchange.discriminator_spec() as int,
    ) + ")\n"@
}

pub fn funding_listing_line(address: &str, id: u16, market_index: u16, exchange: &Exchange) -> (r:
    String)
    ensures
        r@ == listing_line_spec(address@, id, market_index, *exchange),
{
    let mut s = String::from_str(address);
    s.append(": ");
    let id_s = u16_to_string(id);
    s.append(id_s.as_str());
    s.append(" ");
    let mi_s = u16_to_string(market_index);
    s.append(mi_s.as_str());
    s.append(" ");
    s.append(venue_name(exchange));
    s.append(" (");
    let disc = exchange.discriminator();
    let disc_s = u16_to_string(disc as u16);
    s.append(disc_s.as_str());
    s.append(")\n");
    s
}

/// Index of the first group with this key, or the length when none
/// holds it.
pub open spec fn find_key(groups: Seq<(Seq<char>, Seq<char>)>, key: Seq<char>) -> int
    decreases groups.len(),
{
    if groups.len() == 0 {
        0
    } else if groups[0].0 == key {
        0
    } else {
        1 + find_key(groups.skip(1), key)
    }
}

/// `find_key` marks the boundary: nothing before it holds the key, and
/// the group there (if any) does.
pub proof fn lemma_find_key(groups: Seq<(Seq<char>, Seq<char>)>, key: Seq<char>)
    ensures
        0 <= find_key(groups, key) <= groups.len(),
        find_key(groups, key) < groups.len() ==> groups[find_key(groups, key)].0 == key,
        forall|i: int| 0 <= i < find_key(groups, key) ==> (#[trigger] groups[i]).0 != key,
    decreases groups.len(),
{
    if groups.len() > 0 && groups[0].0 != key {
        lemma_find_key(groups.skip(1), key);
        assert forall|i: int|
            0 <= i < find_key(groups, key) implies (#[trigger] groups[i]).0 != key by {
            if i > 0 {
                assert(groups.skip(1)[i - 1] == groups[i]);
            }
        }
        if find_key(groups, key) < groups.len() {
            assert(groups.skip(1)[find_key(groups.skip(1), key)] == groups[find_key(
                groups,
                key,
            )]);
        }
    }
}

/// Append one line under its key: extend the key's group, or open a
/// fresh one at the end.
pub open spec fn add_line(
    groups: Seq<(Seq<char>, Seq<char>)>,
    key: Seq<char>,
    line: Seq<char>,
) -> Seq<(Seq<char>, Seq<char>)> {
    let f = find_key(groups, key);
    if f < groups.len() {
        groups.update(f, (key, groups[f].1 + line))
    } else {
        groups.push((key, line))
    }
}

/// The lines of the first `n` items grouped by key, in order of first
/// appearance.
pub open spec fn grouped(items: Seq<(Seq<char>, Seq<char>)>, n: int) -> Seq<
    (Seq<char>, Seq<char>),
>
    decreases n,
{
    if n <= 0 {
        Seq::empty()
    } else {
        add_line(grouped(items, n - 1), items[n - 1].0, items[n - 1].1)
    }
}

/// The view of a keyed string pair.
pub open spec fn pair_view(p: (String, String)) -> (Seq<char>, Seq<char>) {
    (p.0@, p.1@)
}

/// Group `(authority, line)` pairs by authority, concatenating each
/// authority's lines in encounter order.
pub fn group_lines(items: &Vec<(String, String)>) -> (r: Vec<(String, String)>)
    ensures
        r@.map_values(|p: (String, String)| pair_view(p)) == grouped(
            items@.map_values(|p: (String, String)| pair_view(p)),
            items@.len() as int,
        ),
{
    let ghost iview = items@.map_values(|p: (String, String)| pair_view(p));
    let mut groups: Vec<(String, String)> = Vec::new();
    let n = items.len();
    let mut i: usize = 0;
    while i < n
        invariant
            0 <= i <= n,
            n == items@.len(),
            iview == items@.map_values(|p: (String, String)| pair_view(p)),
            groups@.map_values(|p: (String, String)| pair_view(p)) == grouped(
                iview,
                i as int,
            ),
        decreases n - i,
    {
        let ghost gview = groups@.map_values(|p: (String, String)| pair_view(p));
        let item = &items[i];
        let m = groups.len();
        let mut j: usize = 0;
        let mut found = m;
        while j < m && found == m
            invariant
                0 <= j <= m,
                m == groups@.len(),
                found == m || found < j,
                found == m ==> forall|k: int|
                    0 <= k < j ==> (#[trigger] groups@[k]).0@ != item.0@,
                found < m ==> groups@[found as int].0@ == item.0@ && forall|k: int|
                    0 <= k < found ==> (#[trigger] groups@[k]).0@ != item.0@,
            decreases m - j,
        {
            if groups[j].0 == item.0 {
                found = j;
            }
            j = j + 1;
        }
        proof {
            lemma_find_key(gview, item.0@);
            assert(forall|k: int| 0 <= k < gview.len() ==> #[trigger] gview[k] == pair_view(
                groups@[k],
            ));
            if found < m {
                assert(find_key(gview, item.0@) == found) by {
                    if find_key(gview, item.0@) < found {
                        assert(gview[find_key(gview, item.0@)].0 == item.0@);
                    }
                    if find_key(gview, item.0@) > found {
                        assert(gview[found as int].0 != item.0@);
                        assert(gview[found as int].0 == groups@[found as int].0@);
                    }
                }
            } else {
                assert(find_key(gview, item.0@) == m) by {
                    if find_key(gview, item.0@) < m {
                        assert(gview[find_key(gview, item.0@)].0 == item.0@);
                    }
                }
            }
        }
        if found < m {
            let mut entry = groups.remove(found);
            entry.1.append(item.1.as_str());
            groups.insert(found, entry);
            proof {
                assert(groups@.map_values(|p: (String, String)| pair_view(p)) =~= add_line(
                    gview,
                    item.0@,
                    item.1@,
                ));
            }
        } else {
            groups.push((item.0.clone(), item.1.clone()));
            proof {
                assert(groups@.map_values(|p: (String, String)| pair_view(p)) =~= add_line(
                    gview,
                    item.0@,
                    item.1@,
                ));
            }
        }
        proof {
            assert(iview[i as int] == pair_view(items@[i as int]));
        }
        i = i + 1;
    }
    groups
}

/// The report text: the column header, then each authority's block.
pub open spec fn listing_text_spec(groups: Seq<(Seq<char>, Seq<char>)>, n: int) -> Seq<char>
    decreases n,
{
    if n <= 0 {
        "<account_address>: <id> <market_index> <exchange> (<exchange_discriminant>)\n"@
    } else {
        listing_text_spec(groups, n - 1) + "\nAuthority: "@ + groups[n - 1].0 + "\n"@
            + "--------------------------------\n"@ + groups[n - 1].1 + "\n"@
    }
}

/// Render the grouped listing.
pub fn render_listing(groups: &Vec<(String, String)>) -> (r: String)
    ensures
        r@ == listing_text_spec(
            groups@.map_values(|p: (String, String)| pair_view(p)),
            groups@.len() as int,
        ),
{
    let ghost gview = groups@.map_values(|p: (String, String)| pair_view(p));
    let mut s = String::from_str(
        "<account_address>: <id> <market_index> <exchange> (<exchange_discriminant>)\n",
    );
    let n = groups.len();
    let mut i: usize = 0;
    while i < n
        invariant
            0 <= i <= n,
            n == groups@.len(),
            gview == groups@.map_values(|p: (String, String)| pair_view(p)),
            s@ == listing_text_spec(gview, i as int),
        decreases n - i,
    {
        let entry = &groups[i];
        s.append("\nAuthority: ");
        s.append(entry.0.as_str());
        s.append("\n");
        s.append("--------------------------------\n");
        s.append(entry.1.as_str());
        s.append("\n");
        proof {
            assert(gview[i as int] == pair_view(groups@[i as int]));
        }
        i = i + 1;
    }
    s
}

} // verus!
