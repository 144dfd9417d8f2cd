//! Host-telemetry shaping: the parts of the telemetry sampler whose
//! results are plain values.  The sampling itself (CPU, memory, disk
//! and network counters, HTTP geolocation lookups) is performed by the
//! unverified driver, which hands the raw readings to these functions.

use vstd::prelude::*;

verus! {

use vstd::arithmetic::div_mod::{lemma_div_is_ordered, lemma_div_multiples_vanish};
use crate::sort::{
    insert_by,
    lemma_insert_by_position,
    lemma_sort_by_insertion_ensures,
    sort_by_insertion,
    sorted_adjacent,
};
use crate::text::{
    lemma_lex_lt_trichotomy,
    lex_lt,
    prefix_to_match,
    prefix_to_match_chars,
    prefix_to_nth_space,
    prefix_to_nth_space_chars,
    starts_with_chars,
    starts_with_str,
    trim_chars,
    trim_spaces,
};

/// The answer of an address-lookup service: the queried address, a
/// status word, and the location split into country code, region and
/// city.
pub struct IPInformation {
    query: String,
    status: String,
    country_code: String,
    region: String,
    city: String,
}

/// The mathematical value of an [`IPInformation`].
pub struct IpInfoModel {
    pub query: Seq<char>,
    pub status: Seq<char>,
    pub country_code: Seq<char>,
    pub region: Seq<char>,
    pub city: Seq<char>,
}

impl View for IPInformation {
    type V = IpInfoModel;

    closed spec fn view(&self) -> IpInfoModel {
        IpInfoModel {
            query: self.query@,
            status: self.status@,
            country_code: self.country_code@,
            region: self.region@,
            city: self.city@,
        }
    }
}

/// `part` appended to a location under construction: skipped when
/// empty, separated by a slash from what is already there.
pub open spec fn joined_part(acc: Seq<char>, part: Seq<char>) -> Seq<char> {
    if part.len() == 0 {
        acc
    } else if acc.len() == 0 {
        part
    } else {
        acc + seq!['/'] + part
    }
}

/// The displayed location: the non-empty ones among country code,
/// region and city, joined by slashes; `UNKNOWN` when the lookup
/// failed.
pub open spec fn geo_location_chars(info: IpInfoModel) -> Seq<char> {
    if info.status == "fail"@ {
        "UNKNOWN"@
    } else {
        joined_part(joined_part(joined_part(Seq::empty(), info.country_code), info.region), info.city)
    }
}

/// Append one location part under the joining rule.
fn join_part(acc: &mut String, part: &String)
    ensures
        final(acc)@ == joined_part(old(acc)@, part@),
{
    if part.as_str().is_empty() {
        return;
    }
    if acc.as_str().is_empty() {
        *acc = part.clone();
        return;
    }
    acc.append("/");
    acc.append(part.as_str());
    proof {
        reveal_strlit("/");
        assert(old(acc)@ + "/"@ + part@ =~= old(acc)@ + seq!['/'] + part@);
    }
}

impl IPInformation {
    pub fn new(
        query: String,
        status: String,
        country_code: String,
        region: String,
        city: String,
    ) -> (info: IPInformation)
        ensures
            info@.query == query@,
            info@.status == status@,
            info@.country_code == country_code@,
            info@.region == region@,
            info@.city == city@,
    {
        IPInformation { query, status, country_code, region, city }
    }

    /// Whether the lookup service reported failure.
    pub fn is_fail(&self) -> (failed: bool)
        ensures
            failed == (self@.status == "fail"@),
    {
        self.status.eq(&String::from_str("fail"))
    }

    /// The queried address.
    pub fn query(&self) -> (q: String)
        ensures
            q@ == self@.query,
    {
        self.query.clone()
    }

    /// The displayed location of the address.
    pub fn get_geo_location(&self) -> (location: String)
        ensures
            location@ == geo_location_chars(self@),
    {
        if self.is_fail() {
            return String::from_str("UNKNOWN");
        }
        let mut location = String::new();
        join_part(&mut location, &self.country_code);
        join_part(&mut location, &self.region);
        join_part(&mut location, &self.city);
        location
    }
}

/// The displayed name of a CPU brand string: trimmed, and for the two
/// big vendors shortened the way their brand strings are usually cut
/// (everything before the `CPU` marker for one, the first four words
/// for the other).
pub open spec fn cpu_name_chars(input: Seq<char>) -> Seq<char> {
    let t = trim_chars(input);
    if starts_with_chars(t, "Intel"@) {
        prefix_to_match_chars(t, "CPU"@)
    } else if starts_with_chars(t, "AMD"@) {
        prefix_to_nth_space_chars(t, 4)
    } else {
        t
    }
}

/// Shorten a CPU brand string for display.
pub fn extract_cpu_name(input: &str) -> (name: Option<String>)
    ensures
        name matches Some(n) && n@ == cpu_name_chars(input@),
{
    let trimmed = trim_spaces(input);
    if starts_with_str(trimmed, "Intel") {
        Some(prefix_to_match(trimmed, "CPU"))
    } else if starts_with_str(trimmed, "AMD") {
        Some(prefix_to_nth_space(trimmed, 4))
    } else {
        Some(trimmed.to_owned())
    }
}

/// The displayed kernel version: everything before the first dash,
/// so a release suffix is cut off.
pub fn kernel_version_short(version: &str) -> (short: String)
    ensures
        short@ == prefix_to_match_chars(version@, "-"@),
{
    prefix_to_match(version, "-")
}

/// One disk as the driver observed it.
pub struct DiskSample {
    pub name: String,
    pub removable: bool,
    pub total_space: u64,
    pub available_space: u64,
}

/// The mathematical value of a [`DiskSample`].
pub struct DiskSampleModel {
    pub name: Seq<char>,
    pub removable: bool,
    pub total_space: u64,
    pub available_space: u64,
}

impl View for DiskSample {
    type V = DiskSampleModel;

    open spec fn view(&self) -> DiskSampleModel {
        DiskSampleModel {
            name: self.name@,
            removable: self.removable,
            total_space: self.total_space,
            available_space: self.available_space,
        }
    }
}

/// One row of the disk listing sent to the presentation boundary.
#[derive(Debug, Clone, PartialEq, Eq, Hash)]
pub struct DiskUsage {
    pub name: String,
    pub internal: bool,
    pub total: u64,
    pub available: u64,
    pub usage: u64,
}

/// The mathematical value of a [`DiskUsage`] row.
#[verifier::ext_equal]
pub struct DiskModel {
    pub name: Seq<char>,
    pub internal: bool,
    pub total: u64,
    pub available: u64,
    pub usage: u64,
}

impl View for DiskUsage {
    type V = DiskModel;

    open spec fn view(&self) -> DiskModel {
        DiskModel {
            name: self.name@,
            internal: self.internal,
            total: self.total,
            available: self.available,
            usage: self.usage,
        }
    }
}

/// The used share of a disk in whole percent, rounded down; 0 for a
/// disk that reports no capacity.
pub open spec fn usage_percent(total: u64, available: u64) -> int {
    let used: int = if total >= available {
        total - available
    } else {
        0
    };
    if total > 0 {
        used * 100 / (total as int)
    } else {
        0
    }
}

/// The listing row a raw observation becomes: a removable disk is an
/// external one, and the used share is computed from the capacities.
pub open spec fn disk_of_sample(s: DiskSampleModel) -> DiskModel {
    DiskModel {
        name: s.name,
        internal: !s.removable,
        total: s.total_space,
        available: s.available_space,
        usage: usage_percent(s.total_space, s.available_space) as u64,
    }
}

/// The listing order: internal disks before removable ones, and
/// within each group names in lexicographic order.
pub open spec fn disk_lt(a: DiskModel, b: DiskModel) -> bool {
    (a.internal && !b.internal) || (a.internal == b.internal && lex_lt(a.name, b.name))
}

/// The listing order as a function value, for the sorting theory.
pub open spec fn disk_order() -> spec_fn(DiskModel, DiskModel) -> bool {
    |a: DiskModel, b: DiskModel| disk_lt(a, b)
}

/// The listing order is asymmetric, as the sorting lemmas require.
pub proof fn lemma_disk_lt_asymmetric()
    ensures
        forall|a: DiskModel, b: DiskModel| #[trigger] disk_lt(a, b) ==> !disk_lt(b, a),
{
    assert forall|a: DiskModel, b: DiskModel| #[trigger] disk_lt(a, b) implies !disk_lt(b, a) by {
        lemma_lex_lt_trichotomy(a.name, b.name);
    }
}

/// Whether row `a` comes strictly before row `b` in the listing.
fn disk_row_lt(a: &DiskUsage, b: &DiskUsage) -> (r: bool)
    ensures
        r == disk_lt(a@, b@),
{
    (a.internal && !b.internal) || (a.internal == b.internal && crate::text::str_lt(
        a.name.as_str(),
        b.name.as_str(),
    ))
}

/// Whether two rows describe the same disk: same name and the same
/// internal flag.
pub open spec fn same_disk_key(a: DiskModel, b: DiskModel) -> bool {
    a.name == b.name && a.internal == b.internal
}

/// Consecutive rows for the same disk collapsed to the first one.
pub open spec fn dedup_disks(s: Seq<DiskModel>) -> Seq<DiskModel>
    decreases s.len(),
{
    if s.len() == 0 {
        s
    } else {
        let prefix = dedup_disks(s.drop_last());
        if prefix.len() > 0 && same_disk_key(s.last(), prefix.last()) {
            prefix
        } else {
            prefix.push(s.last())
        }
    }
}

/// The sequence of row values a vector of rows holds.
pub open spec fn disks_view(s: Seq<DiskUsage>) -> Seq<DiskModel> {
    Seq::new(s.len(), |i: int| s[i]@)
}

/// The sequence of observation values a vector of observations holds.
pub open spec fn samples_view(s: Seq<DiskSample>) -> Seq<DiskModel> {
    Seq::new(s.len(), |i: int| disk_of_sample(s[i]@))
}

/// Turn one observation into its listing row.
fn disk_row(sample: &DiskSample) -> (row: DiskUsage)
    ensures
        row@ == disk_of_sample(sample@),
{
    let total = sample.total_space;
    let available = sample.available_space;
    let used: u64 = if total >= available {
        total - available
    } else {
        0
    };
    let usage: u64 = if total > 0 {
        let wide: u128 = (used as u128) * 100 / (total as u128);
        proof {
            lemma_div_is_ordered(used as int * 100, total as int * 100, total as int);
            lemma_div_multiples_vanish(100, total as int);
        }
        wide as u64
    } else {
        0
    };
    DiskUsage {
        name: sample.name.clone(),
        internal: !sample.removable,
        total,
        available,
        usage,
    }
}

/// Insert one row into an already sorted listing, at the position the
/// stable insertion assigns it.
fn insert_disk_row(rows: &mut Vec<DiskUsage>, x: DiskUsage)
    ensures
        disks_view(final(rows)@) == insert_by(disks_view(old(rows)@), x@, disk_order()),
{
    let mut j: usize = rows.len();
    while j > 0 && disk_row_lt(&x, &rows[j - 1])
        invariant
            j <= rows.len(),
            rows@ == old(rows)@,
            forall|i: int| j <= i < rows@.len() ==> disk_lt(x@, #[trigger] rows@[i]@),
        decreases j,
    {
        j = j - 1;
    }
    rows.insert(j, x);
    proof {
        lemma_insert_by_position(disks_view(old(rows)@), x@, disk_order(), j as int);
        assert(disks_view(rows@) =~= disks_view(old(rows)@).subrange(0, j as int) + seq![x@]
            + disks_view(old(rows)@).subrange(j as int, old(rows)@.len() as int));
    }
}

/// Shape raw disk observations into the listing the presentation
/// boundary shows: one row per observation, sorted with internal
/// disks first and names in order, then consecutive rows of the same
/// disk collapsed to one.
pub fn extract_disk_usage(samples: &Vec<DiskSample>) -> (rows: Vec<DiskUsage>)
    ensures
        disks_view(rows@) == dedup_disks(sort_by_insertion(samples_view(samples@), disk_order())),
        sorted_adjacent(sort_by_insertion(samples_view(samples@), disk_order()), disk_order()),
{
    proof {
        lemma_disk_lt_asymmetric();
        lemma_sort_by_insertion_ensures(samples_view(samples@), disk_order());
    }
    let mut sorted: Vec<DiskUsage> = Vec::new();
    let mut i: usize = 0;
    proof {
        assert(disks_view(sorted@) =~= sort_by_insertion(
            samples_view(samples@).subrange(0, 0),
            disk_order(),
        )) by {
            assert(samples_view(samples@).subrange(0, 0) =~= Seq::<DiskModel>::empty());
        }
    }
    while i < samples.len()
        invariant
            i <= samples.len(),
            disks_view(sorted@) == sort_by_insertion(
                samples_view(samples@).subrange(0, i as int),
                disk_order(),
            ),
        decreases samples.len() - i,
    {
        let row = disk_row(&samples[i]);
        insert_disk_row(&mut sorted, row);
        proof {
            let pre = samples_view(samples@).subrange(0, i as int);
            let cur = samples_view(samples@).subrange(0, i as int + 1);
            assert(cur.drop_last() =~= pre);
            assert(cur.last() == disk_of_sample(samples@[i as int]@));
        }
        i = i + 1;
    }
    proof {
        assert(samples_view(samples@).subrange(0, samples@.len() as int) =~= samples_view(
            samples@,
        ));
    }
    let mut rows: Vec<DiskUsage> = Vec::new();
    let mut k: usize = 0;
    proof {
        assert(disks_view(rows@) =~= dedup_disks(disks_view(sorted@).subrange(0, 0))) by {
            assert(disks_view(sorted@).subrange(0, 0) =~= Seq::<DiskModel>::empty());
        }
    }
    while k < sorted.len()
        invariant
            k <= sorted.len(),
            disks_view(rows@) == dedup_disks(disks_view(sorted@).subrange(0, k as int)),
        decreases sorted.len() - k,
    {
        let candidate = &sorted[k];
        let keep: bool = if rows.len() == 0 {
            true
        } else {
            let last = &rows[rows.len() - 1];
            !(candidate.name.eq(&last.name) && candidate.internal == last.internal)
        };
        proof {
            let pre = disks_view(sorted@).subrange(0, k as int);
            let cur = disks_view(sorted@).subrange(0, k as int + 1);
            assert(cur.drop_last() =~= pre);
            assert(cur.last() == sorted@[k as int]@);
        }
        if keep {
            let row = DiskUsage {
                name: candidate.name.clone(),
                internal: candidate.internal,
                total: candidate.total,
                available: candidate.available,
                usage: candidate.usage,
            };
            let ghost before = rows@;
            rows.push(row);
            proof {
                assert(disks_view(rows@) =~= disks_view(before).push(sorted@[k as int]@));
            }
        }
        k = k + 1;
    }
    proof {
        assert(disks_view(sorted@).subrange(0, sorted@.len() as int) =~= disks_view(sorted@));
    }
    rows
}

} // verus!
