use crate::colors::{color_of, get_language_color, ColorTable};
use crate::digits::{spec_decimal, u64_to_string};
use crate::errors::AppError;
use vstd::arithmetic::div_mod::{
    lemma_div_is_ordered, lemma_div_multiples_vanish, lemma_fundamental_div_mod, lemma_mod_bound,
};
use vstd::prelude::*;
use vstd::string::StringExecFns;

verus! {

/// One language's record in the rendered breakdown: its name, its share of
/// the repository's byte total in hundredths of a percent (0 ..= 10000,
/// rounded down, exact integer arithmetic), and its display color.
#[derive(Debug)]
pub struct Language {
    pub name: String,
    pub size: u64,
    pub color: String,
}

/// The views of a vector of (name, byte count) pairs.
pub open spec fn lang_pairs_view(v: Seq<(String, u64)>) -> Seq<(Seq<char>, u64)> {
    v.map_values(|p: (String, u64)| (p.0@, p.1))
}

/// The views of a vector of language records.
pub open spec fn shares_view(v: Seq<Language>) -> Seq<(Seq<char>, int, Seq<char>)> {
    v.map_values(|l: Language| (l.name@, l.size as int, l.color@))
}

/// The total byte count of a language mapping.
pub open spec fn total_bytes(pairs: Seq<(Seq<char>, u64)>) -> int
    decreases pairs.len(),
{
    if pairs.len() == 0 {
        0
    } else {
        total_bytes(pairs.drop_last()) + pairs.last().1
    }
}

/// A byte count's share of `total`, in hundredths of a percent, rounded down.
pub open spec fn share_size(value: u64, total: int) -> int {
    (value * 10000) / total
}

/// The record the aggregator owes for one (name, byte count) pair.
pub open spec fn share_of(
    pair: (Seq<char>, u64),
    total: int,
    table: Seq<(Seq<char>, Seq<char>)>,
) -> (Seq<char>, int, Seq<char>) {
    (pair.0, share_size(pair.1, total), color_of(table, pair.0))
}

/// What aggregation owes: the empty breakdown when the total is zero (an
/// empty or all-zero mapping — never a division by zero), else one record per
/// pair, in the pairs' order.
pub open spec fn aggregate_spec(
    pairs: Seq<(Seq<char>, u64)>,
    table: Seq<(Seq<char>, Seq<char>)>,
) -> Seq<(Seq<char>, int, Seq<char>)> {
    if total_bytes(pairs) == 0 {
        Seq::empty()
    } else {
        pairs.map_values(|p: (Seq<char>, u64)| share_of(p, total_bytes(pairs), table))
    }
}

proof fn lemma_total_nonneg(pairs: Seq<(Seq<char>, u64)>)
    ensures
        total_bytes(pairs) >= 0,
    decreases pairs.len(),
{
    if pairs.len() > 0 {
        lemma_total_nonneg(pairs.drop_last());
    }
}

proof fn lemma_total_take_succ(pairs: Seq<(Seq<char>, u64)>, i: int)
    requires
        0 <= i < pairs.len(),
    ensures
        total_bytes(pairs.take(i + 1)) == total_bytes(pairs.take(i)) + pairs[i].1,
{
    assert(pairs.take(i + 1).drop_last() =~= pairs.take(i));
    assert(pairs.take(i + 1).last() == pairs[i]);
}

proof fn lemma_total_prefix_le(pairs: Seq<(Seq<char>, u64)>, i: int)
    requires
        0 <= i <= pairs.len(),
    ensures
        total_bytes(pairs.take(i)) <= total_bytes(pairs),
    decreases pairs.len() - i,
{
    if i == pairs.len() {
        assert(pairs.take(i) =~= pairs);
    } else {
        lemma_total_take_succ(pairs, i);
        lemma_total_prefix_le(pairs, i + 1);
    }
}

proof fn lemma_elem_le_total(pairs: Seq<(Seq<char>, u64)>, i: int)
    requires
        0 <= i < pairs.len(),
    ensures
        pairs[i].1 <= total_bytes(pairs),
{
    lemma_total_nonneg(pairs.take(i));
    lemma_total_take_succ(pairs, i);
    lemma_total_prefix_le(pairs, i + 1);
}

/// The sum of the size fields of a breakdown.
pub open spec fn sum_sizes(shares: Seq<(Seq<char>, int, Seq<char>)>) -> int
    decreases shares.len(),
{
    if shares.len() == 0 {
        0
    } else {
        sum_sizes(shares.drop_last()) + shares.last().1
    }
}

/// The sum of each pair's share of `total`, rounded down.
spec fn sum_shares(pairs: Seq<(Seq<char>, u64)>, total: int) -> int
    decreases pairs.len(),
{
    if pairs.len() == 0 {
        0
    } else {
        sum_shares(pairs.drop_last(), total) + share_size(pairs.last().1, total)
    }
}

/// The sum of each pair's rounding remainder against `total`.
spec fn sum_rests(pairs: Seq<(Seq<char>, u64)>, total: int) -> int
    decreases pairs.len(),
{
    if pairs.len() == 0 {
        0
    } else {
        sum_rests(pairs.drop_last(), total) + (pairs.last().1 * 10000) % total
    }
}

proof fn lemma_sum_sizes_mapped(
    pairs: Seq<(Seq<char>, u64)>,
    total: int,
    table: Seq<(Seq<char>, Seq<char>)>,
)
    ensures
        sum_sizes(pairs.map_values(|p: (Seq<char>, u64)| share_of(p, total, table)))
            == sum_shares(pairs, total),
    decreases pairs.len(),
{
    let mapped = pairs.map_values(|p: (Seq<char>, u64)| share_of(p, total, table));
    if pairs.len() > 0 {
        lemma_sum_sizes_mapped(pairs.drop_last(), total, table);
        assert(pairs.drop_last().map_values(|p: (Seq<char>, u64)| share_of(p, total, table))
            =~= mapped.drop_last());
        assert(mapped.last() == share_of(pairs.last(), total, table));
    }
}

proof fn lemma_shares_rests_identity(pairs: Seq<(Seq<char>, u64)>, total: int)
    requires
        total > 0,
    ensures
        total * sum_shares(pairs, total) + sum_rests(pairs, total) == 10000 * total_bytes(pairs),
        0 <= sum_rests(pairs, total),
        sum_rests(pairs, total) <= pairs.len() * (total - 1),
    decreases pairs.len(),
{
    if pairs.len() == 0 {
    } else {
        let prefix = pairs.drop_last();
        let v = pairs.last().1 as int;
        let q = share_size(pairs.last().1, total);
        let rest = (v * 10000) % total;
        lemma_shares_rests_identity(prefix, total);
        lemma_fundamental_div_mod(v * 10000, total);
        lemma_mod_bound(v * 10000, total);
        let sp = sum_shares(prefix, total);
        let rp = sum_rests(prefix, total);
        let n = prefix.len() as int;
        assert(total * (sp + q) == total * sp + total * q) by (nonlinear_arith);
        assert(v * 10000 == 10000 * v) by (nonlinear_arith);
        assert(total * q + rest == v * 10000) by {
            assert(v * 10000 == total * ((v * 10000) / total) + (v * 10000) % total);
        }
        assert(total * sum_shares(pairs, total) + sum_rests(pairs, total)
            == total * sp + rp + v * 10000);
        assert(10000 * total_bytes(pairs) == 10000 * total_bytes(prefix) + 10000 * v)
            by (nonlinear_arith)
            requires total_bytes(pairs) == total_bytes(prefix) + v;
        assert((n + 1) * (total - 1) == n * (total - 1) + (total - 1)) by (nonlinear_arith);
    }
}

/// The shares of a mapping with positive byte total account for the whole,
/// up to rounding: their sizes (hundredths of a percent) sum to at most
/// 10000, and to more than 10000 minus the number of languages — each entry
/// loses less than one hundredth of a percent to rounding.
pub proof fn lemma_sizes_sum_near_hundred(
    pairs: Seq<(Seq<char>, u64)>,
    table: Seq<(Seq<char>, Seq<char>)>,
)
    requires
        total_bytes(pairs) > 0,
    ensures
        10000 - pairs.len() < sum_sizes(aggregate_spec(pairs, table)),
        sum_sizes(aggregate_spec(pairs, table)) <= 10000,
{
    let total = total_bytes(pairs);
    let n = pairs.len() as int;
    lemma_sum_sizes_mapped(pairs, total, table);
    lemma_shares_rests_identity(pairs, total);
    let s = sum_sizes(aggregate_spec(pairs, table));
    let m = sum_rests(pairs, total);
    assert(s == sum_shares(pairs, total));
    assert(total * s + m == 10000 * total);
    assert(n > 0);
    assert(s <= 10000) by (nonlinear_arith)
        requires total > 0, total * s <= 10000 * total;
    assert(total * s > (10000 - n) * total) by (nonlinear_arith)
        requires
            total * s == 10000 * total - m,
            m <= n * (total - 1),
            n >= 1,
            total > 0;
    assert(s > 10000 - n) by (nonlinear_arith)
        requires total > 0, total * s > (10000 - n) * total;
}

/// A language's share of the total, as hundredths of a percent rounded down:
/// the share of 300 bytes out of 1000 is 3000, that is 30.00 percent.
pub fn get_language_size(language: &u64, total: &u64) -> (r: u64)
    requires
        *total > 0,
        *language <= *total,
    ensures
        r == share_size(*language, *total as int),
        r <= 10000,
{
    let value: u128 = (*language as u128) * 10000;
    let t: u128 = *total as u128;
    let q: u128 = value / t;
    proof {
        lemma_div_is_ordered(value as int, 10000 * (*total as int), t as int);
        lemma_div_multiples_vanish(10000, t as int);
    }
    q as u64
}

/// Sums the byte counts, or reports a total beyond `u64::MAX`.
fn checked_total(raw: &Vec<(String, u64)>) -> (r: Option<u64>)
    ensures
        match r {
            Some(t) => t == total_bytes(lang_pairs_view(raw@)),
            None => total_bytes(lang_pairs_view(raw@)) > u64::MAX,
        },
{
    let ghost pairs = lang_pairs_view(raw@);
    let n = raw.len();
    let mut total: u64 = 0;
    let mut i: usize = 0;
    proof {
        assert(pairs.take(0) =~= Seq::<(Seq<char>, u64)>::empty());
    }
    while i < n
        invariant
            n == raw@.len(),
            pairs == lang_pairs_view(raw@),
            pairs.len() == n,
            i <= n,
            total == total_bytes(pairs.take(i as int)),
        decreases n - i,
    {
        proof {
            lemma_total_take_succ(pairs, i as int);
            lemma_total_prefix_le(pairs, i as int + 1);
        }
        match total.checked_add(raw[i].1) {
            Some(t) => {
                total = t;
            },
            None => {
                return None;
            },
        }
        i += 1;
    }
    proof {
        assert(pairs.take(n as int) =~= pairs);
    }
    Some(total)
}

/// Aggregates a raw (name, byte count) mapping into the displayed breakdown:
/// one record per pair, in the pairs' order, each carrying its share of the
/// byte total in hundredths of a percent and the color the table records for
/// its name. A zero total — an empty or all-zero mapping — yields the empty
/// breakdown rather than a division by zero.
pub fn aggregate(raw: &Vec<(String, u64)>, colors: &ColorTable) -> (r: Vec<Language>)
    requires
        total_bytes(lang_pairs_view(raw@)) <= u64::MAX,
    ensures
        shares_view(r@) == aggregate_spec(lang_pairs_view(raw@), colors@),
        total_bytes(lang_pairs_view(raw@)) == 0 ==> r@.len() == 0,
        total_bytes(lang_pairs_view(raw@)) > 0 ==> r@.len() == raw@.len(),
{
    let ghost pairs = lang_pairs_view(raw@);
    let n = raw.len();
    let total: u64 = match checked_total(raw) {
        Some(t) => t,
        None => unreached(),
    };
    let mut result: Vec<Language> = Vec::new();
    if total == 0 {
        proof {
            assert(shares_view(result@) =~= aggregate_spec(pairs, colors@));
        }
        return result;
    }
    let mut i: usize = 0;
    while i < n
        invariant
            n == raw@.len(),
            pairs == lang_pairs_view(raw@),
            pairs.len() == n,
            i <= n,
            total == total_bytes(pairs),
            total > 0,
            result@.len() == i,
            forall|j: int|
                0 <= j < i ==> shares_view(result@)[j] == share_of(
                    pairs[j],
                    total as int,
                    colors@,
                ),
        decreases n - i,
    {
        proof {
            lemma_elem_le_total(pairs, i as int);
        }
        let name: String = raw[i].0.clone();
        let value: u64 = raw[i].1;
        let size: u64 = get_language_size(&value, &total);
        let color: String = get_language_color(colors, name.as_str());
        let ghost prev = result@;
        let ghost entry = (name@, size as int, color@);
        result.push(Language { name, size, color });
        proof {
            let j = i as int;
            assert(result@ == prev.push(result@[j]));
            assert(shares_view(result@)[j] == entry);
            assert(pairs[j] == (raw@[j].0@, raw@[j].1));
            assert(entry == share_of(pairs[j], total as int, colors@));
            assert(forall|k: int|
                0 <= k < j ==> shares_view(result@)[k] == shares_view(prev)[k]);
        }
        i += 1;
        proof {
            assert forall|k: int| 0 <= k < i implies shares_view(result@)[k] == share_of(
                pairs[k],
                total as int,
                colors@,
            ) by {
                if k < i - 1 {
                    assert(shares_view(result@)[k] == shares_view(prev)[k]);
                    assert(shares_view(prev)[k] == share_of(pairs[k], total as int, colors@));
                } else {
                    assert(shares_view(result@)[k] == entry);
                }
            }
        }
    }
    proof {
        assert(shares_view(result@) =~= aggregate_spec(pairs, colors@));
    }
    result
}

/// What a languages document parses to: the entries of a flat JSON object of
/// string -> non-negative integer byte count, or nothing when the text is not
/// such an object.
pub uninterp spec fn parsed_languages(text: Seq<char>) -> Option<Seq<(Seq<char>, u64)>>;

/// Relies on `serde_json::from_str::<BTreeMap<String, u64>>`: it succeeds
/// exactly when the text is a flat JSON object whose values all fit in `u64`,
/// and then yields the object's entries with unique keys in ascending key
/// order; the outcome is a function of the text alone. On failure it hands
/// back serde_json's error message.
#[verifier::external_body]
fn parse_language_pairs(text: &str) -> (r: Result<Vec<(String, u64)>, String>)
    ensures
        match r {
            Ok(v) => parsed_languages(text@) == Some(lang_pairs_view(v@)),
            Err(_) => parsed_languages(text@) is None,
        },
{
    match serde_json::from_str::<std::collections::BTreeMap<String, u64>>(text) {
        Ok(m) => Ok(m.into_iter().collect()),
        Err(e) => Err(e.to_string()),
    }
}

/// A 2xx status from the upstream HTTP layer.
pub open spec fn spec_is_success(status: u16) -> bool {
    200 <= status < 300
}

pub fn is_success_status(status: u16) -> (r: bool)
    ensures
        r == spec_is_success(status),
{
    200 <= status && status < 300
}

/// The language half of the request pipeline, after the outbound call: given
/// the response's status and body, it rejects a non-2xx status, parses the
/// body as a flat JSON object of name -> byte count, and aggregates it into
/// the displayed breakdown. It succeeds exactly on a 2xx status whose body is
/// such an object with a representable byte total. The breakdown lists the
/// languages in ascending name order — the deterministic order the parsed
/// document's entries are handed over in.
pub fn get_repository_languages(status: u16, body: &str, colors: &ColorTable) -> (r: Result<
    Vec<Language>,
    AppError,
>)
    ensures
        ({
            let parsed = parsed_languages(body@);
            match r {
                Ok(v) => spec_is_success(status) && parsed is Some && total_bytes(
                    parsed.unwrap(),
                ) <= u64::MAX && shares_view(v@) == aggregate_spec(parsed.unwrap(), colors@),
                Err(e) => e is Upstream && (!spec_is_success(status) || parsed is None
                    || total_bytes(parsed.unwrap()) > u64::MAX) && (!spec_is_success(status)
                    ==> e.spec_message() == "Error fetching language data. Status code: "@
                        + spec_decimal(status as nat)) && ((spec_is_success(status)
                    && parsed is Some) ==> e.spec_message()
                    == "Language byte counts exceed the supported total."@),
            }
        }),
{
    if !is_success_status(status) {
        let mut message = "Error fetching language data. Status code: ".to_owned();
        let num = u64_to_string(status as u64);
        message.append(num.as_str());
        return Err(AppError::Upstream { message });
    }
    match parse_language_pairs(body) {
        Err(message) => Err(AppError::Upstream { message }),
        Ok(raw) => {
            match checked_total(&raw) {
                None => Err(
                    AppError::Upstream {
                        message: "Language byte counts exceed the supported total.".to_owned(),
                    },
                ),
                Some(_) => Ok(aggregate(&raw, colors)),
            }
        },
    }
}

} // verus!
