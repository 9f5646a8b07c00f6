//! DocumentParser: the deterministic mapping from the raw forecast
//! document to the ordered sequence of readings.
//!
//! The document groups readings by calendar date: each Period node under
//! `SiteRep / DV / Location / Period` carries the date in its `value`
//! field and a `Rep` array, and each Rep node carries the offset from
//! midnight in minutes (`$`) and the temperature (`F`), both as strings.
//!
//! Any missing or wrongly shaped field is a `StructureError`, any field
//! that fails to parse is a `FormatError`, and either aborts the whole
//! parse: a partial time series is worse than a visible failure, so no
//! record is ever defaulted or skipped.

use vstd::prelude::*;

use crate::dates::{max_date_epoch, min_date_epoch, parse_date, parse_date_spec};
use crate::doc::{field_of, node_field, Node};
use crate::num::{parse_offset, parse_offset_spec, parse_temperature, parse_temperature_spec};
use crate::{reading_views, Error, Reading, ReadingModel};

verus! {

/// The reading one Rep node yields, given the midnight of its Period
/// (`base`, epoch seconds) and the stamp of the run. The offset field is
/// read before the temperature field, so when both are faulty the offset
/// decides the error, as the field order of the walk does below.
pub open spec fn rep_reading(rep: Node, base: int, stamp: int) -> Result<ReadingModel, Error> {
    match field_of(rep, "$"@) {
        Some(Node::Text(o)) => match parse_offset_spec(o@) {
            Some(minutes) => match field_of(rep, "F"@) {
                Some(Node::Text(t)) => match parse_temperature_spec(t@) {
                    Some(temp) => Ok(
                        ReadingModel {
                            observation_time: base + 60 * minutes,
                            temperature: temp,
                            ingestion_time: stamp,
                        },
                    ),
                    None => Err(Error::FormatError),
                },
                _ => Err(Error::StructureError),
            },
            None => Err(Error::FormatError),
        },
        _ => Err(Error::StructureError),
    }
}

/// The readings of the Rep nodes from index `i` on, in document order;
/// the first faulty node decides the error.
pub open spec fn reps_from(reps: Seq<Node>, i: int, base: int, stamp: int) -> Result<
    Seq<ReadingModel>,
    Error,
>
    decreases reps.len() - i,
    when 0 <= i <= reps.len()
{
    if i == reps.len() {
        Ok(Seq::empty())
    } else {
        match rep_reading(reps[i], base, stamp) {
            Ok(r) => match reps_from(reps, i + 1, base, stamp) {
                Ok(t) => Ok(seq![r] + t),
                Err(e) => Err(e),
            },
            Err(e) => Err(e),
        }
    }
}

/// The readings one Period node yields: its date field names the midnight
/// all its Reps offset from.
pub open spec fn period_readings(p: Node, stamp: int) -> Result<Seq<ReadingModel>, Error> {
    match field_of(p, "value"@) {
        Some(Node::Text(ds)) => match parse_date_spec(ds@) {
            Some(base) => match field_of(p, "Rep"@) {
                Some(Node::List(reps)) => reps_from(reps@, 0, base, stamp),
                _ => Err(Error::StructureError),
            },
            None => Err(Error::FormatError),
        },
        _ => Err(Error::StructureError),
    }
}

/// The readings of the Period nodes from index `i` on, concatenated in
/// document order.
pub open spec fn periods_from(ps: Seq<Node>, i: int, stamp: int) -> Result<
    Seq<ReadingModel>,
    Error,
>
    decreases ps.len() - i,
    when 0 <= i <= ps.len()
{
    if i == ps.len() {
        Ok(Seq::empty())
    } else {
        match period_readings(ps[i], stamp) {
            Ok(h) => match periods_from(ps, i + 1, stamp) {
                Ok(t) => Ok(h + t),
                Err(e) => Err(e),
            },
            Err(e) => Err(e),
        }
    }
}

/// The Period collection of a document: the array under
/// `SiteRep / DV / Location / Period`, if the document has that shape.
pub open spec fn periods_of(doc: Node) -> Option<Seq<Node>> {
    match field_of(doc, "SiteRep"@) {
        Some(site) => match field_of(site, "DV"@) {
            Some(dv) => match field_of(dv, "Location"@) {
                Some(loc) => match field_of(loc, "Period"@) {
                    Some(Node::List(ps)) => Some(ps@),
                    _ => None,
                },
                None => None,
            },
            None => None,
        },
        None => None,
    }
}

/// The meaning of a whole document for one run stamped `stamp`: the
/// readings of every Rep of every Period, in document order, or the error
/// of the first fault the walk meets.
pub open spec fn readings_of(doc: Node, stamp: int) -> Result<Seq<ReadingModel>, Error> {
    match periods_of(doc) {
        Some(ps) => periods_from(ps, 0, stamp),
        None => Err(Error::StructureError),
    }
}

/// The offset a Rep node carries, when its `$` field parses.
pub open spec fn rep_offset(rep: Node) -> Option<int> {
    match field_of(rep, "$"@) {
        Some(Node::Text(o)) => parse_offset_spec(o@),
        _ => None,
    }
}

/// The midnight a Period node names, when its `value` field parses.
pub open spec fn period_base(p: Node) -> Option<int> {
    match field_of(p, "value"@) {
        Some(Node::Text(ds)) => parse_date_spec(ds@),
        _ => None,
    }
}

/// The Rep nodes of a Period node, or nothing when the field is absent
/// or not an array.
pub open spec fn period_reps(p: Node) -> Seq<Node> {
    match field_of(p, "Rep"@) {
        Some(Node::List(reps)) => reps@,
        _ => Seq::empty(),
    }
}

pub open spec fn total_reps(ps: Seq<Node>, i: int) -> int
    decreases ps.len() - i,
    when 0 <= i <= ps.len()
{
    if i == ps.len() {
        0
    } else {
        period_reps(ps[i]).len() + total_reps(ps, i + 1)
    }
}

/// The total count of Rep nodes across all Period nodes of a document.
pub open spec fn document_rep_count(doc: Node) -> int {
    match periods_of(doc) {
        Some(ps) => total_reps(ps, 0),
        None => 0,
    }
}

/// A document ordered the way the source emits it: dates strictly
/// increasing period to period (so consecutive midnights are at least a
/// day apart), offsets strictly increasing within each period, and every
/// offset within its day (at most 1439 minutes).
pub open spec fn chronological(ps: Seq<Node>) -> bool {
    &&& forall|i: int|
        0 <= i < ps.len() - 1 ==> (#[trigger] period_base(ps[i]))->Some_0 + 86400 <= period_base(
            ps[i + 1],
        )->Some_0
    &&& forall|i: int, a: int, b: int|
        0 <= i < ps.len() && 0 <= a < b < period_reps(ps[i]).len() ==> rep_offset(
            #[trigger] period_reps(ps[i])[a],
        )->Some_0 < rep_offset(#[trigger] period_reps(ps[i])[b])->Some_0
    &&& forall|i: int, a: int|
        0 <= i < ps.len() && 0 <= a < period_reps(ps[i]).len() ==> rep_offset(
            #[trigger] period_reps(ps[i])[a],
        )->Some_0 <= 1439
}

pub open spec fn strictly_increasing_times(s: Seq<ReadingModel>) -> bool {
    forall|a: int, b: int|
        0 <= a < b < s.len() ==> (#[trigger] s[a]).observation_time < (#[trigger] s[b]).observation_time
}

/// What every reading of a successfully walked Rep suffix looks like:
/// one reading per Rep, its time the period midnight plus its
/// non-negative offset in minutes, its stamp the run's.
proof fn lemma_reps_characterize(reps: Seq<Node>, i: int, base: int, stamp: int)
    requires
        0 <= i <= reps.len(),
        reps_from(reps, i, base, stamp) is Ok,
    ensures
        reps_from(reps, i, base, stamp)->Ok_0.len() == reps.len() - i,
        forall|j: int|
            #![trigger reps[j]]
            i <= j < reps.len() ==> rep_offset(reps[j]) is Some && 0 <= rep_offset(
                reps[j],
            )->Some_0,
        forall|k: int|
            #![trigger reps_from(reps, i, base, stamp)->Ok_0[k]]
            0 <= k < reps.len() - i ==> reps_from(reps, i, base, stamp)->Ok_0[k].observation_time
                == base + 60 * rep_offset(reps[i + k])->Some_0 && reps_from(
                reps,
                i,
                base,
                stamp,
            )->Ok_0[k].ingestion_time == stamp,
    decreases reps.len() - i,
{
    if i < reps.len() {
        lemma_reps_characterize(reps, i + 1, base, stamp);
        match field_of(reps[i], "$"@) {
            Some(Node::Text(o)) => {
                match parse_offset_spec(o@) {
                    Some(minutes) => {
                        crate::num::lemma_dec_val_nonneg(o@);
                        assert(rep_offset(reps[i]) == Some(minutes));
                        assert(minutes >= 0);
                    },
                    None => {
                        assert(false);
                    },
                }
            },
            _ => {
                assert(false);
            },
        }
        assert(rep_offset(reps[i]) is Some && rep_offset(reps[i])->Some_0 >= 0);
        let r = rep_reading(reps[i], base, stamp)->Ok_0;
        let t = reps_from(reps, i + 1, base, stamp)->Ok_0;
        let out = reps_from(reps, i, base, stamp)->Ok_0;
        assert(out == seq![r] + t);
        assert forall|j: int| i <= j < reps.len() implies rep_offset(
            #[trigger] reps[j],
        ) is Some && 0 <= rep_offset(reps[j])->Some_0 by {}
        assert forall|k: int| 0 <= k < reps.len() - i implies (#[trigger] reps_from(
            reps,
            i,
            base,
            stamp,
        )->Ok_0[k]).observation_time == base + 60 * rep_offset(reps[i + k])->Some_0
            && reps_from(reps, i, base, stamp)->Ok_0[k].ingestion_time == stamp by {
            assert(out[k] == reps_from(reps, i, base, stamp)->Ok_0[k]);
            if k == 0 {
                assert(out[0] == r);
                assert(reps[i + k] == reps[i]);
            } else {
                assert(out[k] == t[k - 1]);
                assert(t[k - 1] == reps_from(reps, i + 1, base, stamp)->Ok_0[k - 1]);
                assert(reps[i + k] == reps[(i + 1) + (k - 1)]);
            }
        }
    }
}

/// Walking the Period suffix from `i` yields one reading per Rep and
/// stamps each with the run's single ingestion time.
proof fn lemma_periods_characterize(ps: Seq<Node>, i: int, stamp: int)
    requires
        0 <= i <= ps.len(),
        periods_from(ps, i, stamp) is Ok,
    ensures
        periods_from(ps, i, stamp)->Ok_0.len() == total_reps(ps, i),
        forall|k: int|
            0 <= k < periods_from(ps, i, stamp)->Ok_0.len() ==> (#[trigger] periods_from(
                ps,
                i,
                stamp,
            )->Ok_0[k]).ingestion_time == stamp,
    decreases ps.len() - i,
{
    if i < ps.len() {
        lemma_periods_characterize(ps, i + 1, stamp);
        match field_of(ps[i], "value"@) {
            Some(Node::Text(ds)) => {
                match parse_date_spec(ds@) {
                    Some(base) => {
                        match field_of(ps[i], "Rep"@) {
                            Some(Node::List(reps)) => {
                                lemma_reps_characterize(reps@, 0, base, stamp);
                                assert(period_reps(ps[i]) == reps@);
                                let h = reps_from(reps@, 0, base, stamp)->Ok_0;
                                let t = periods_from(ps, i + 1, stamp)->Ok_0;
                                let out = periods_from(ps, i, stamp)->Ok_0;
                                assert(out == h + t);
                                assert forall|k: int| 0 <= k < out.len() implies (
                                #[trigger] out[k]).ingestion_time == stamp by {
                                    if k < h.len() {
                                        assert(out[k] == h[k]);
                                    } else {
                                        assert(out[k] == t[k - h.len()]);
                                    }
                                }
                            },
                            _ => {
                                assert(false);
                            },
                        }
                    },
                    None => {
                        assert(false);
                    },
                }
            },
            _ => {
                assert(false);
            },
        }
    }
}

/// Law: a document the parser accepts yields exactly one reading per Rep
/// node — the run's length is the document's Rep count.
pub proof fn lemma_reading_count(doc: Node, stamp: int)
    requires
        readings_of(doc, stamp) is Ok,
    ensures
        readings_of(doc, stamp)->Ok_0.len() == document_rep_count(doc),
{
    match periods_of(doc) {
        Some(ps) => {
            lemma_periods_characterize(ps, 0, stamp);
        },
        None => {
            assert(false);
        },
    }
}

/// Law: every reading of one run carries the run's single ingestion
/// time, the stamp captured once before parsing began.
pub proof fn lemma_single_ingestion_time(doc: Node, stamp: int)
    requires
        readings_of(doc, stamp) is Ok,
    ensures
        forall|k: int|
            0 <= k < readings_of(doc, stamp)->Ok_0.len() ==> (#[trigger] readings_of(
                doc,
                stamp,
            )->Ok_0[k]).ingestion_time == stamp,
{
    match periods_of(doc) {
        Some(ps) => {
            lemma_periods_characterize(ps, 0, stamp);
        },
        None => {
            assert(false);
        },
    }
}

/// All observation times of the Period suffix from `i`, when it is
/// chronological, strictly increase, and none is before the midnight of
/// Period `i`.
#[verifier::rlimit(60)]
proof fn lemma_periods_monotone(ps: Seq<Node>, i: int, stamp: int)
    requires
        0 <= i <= ps.len(),
        periods_from(ps, i, stamp) is Ok,
        chronological(ps),
    ensures
        strictly_increasing_times(periods_from(ps, i, stamp)->Ok_0),
        i < ps.len() ==> forall|k: int|
            0 <= k < periods_from(ps, i, stamp)->Ok_0.len() ==> (#[trigger] periods_from(
                ps,
                i,
                stamp,
            )->Ok_0[k]).observation_time >= period_base(ps[i])->Some_0,
    decreases ps.len() - i,
{
    if i < ps.len() {
        lemma_periods_monotone(ps, i + 1, stamp);
        match field_of(ps[i], "value"@) {
            Some(Node::Text(ds)) => {
                match parse_date_spec(ds@) {
                    Some(base) => {
                        match field_of(ps[i], "Rep"@) {
                            Some(Node::List(reps)) => {
                                lemma_reps_characterize(reps@, 0, base, stamp);
                                assert(period_reps(ps[i]) == reps@);
                                assert(period_base(ps[i]) == Some(base));
                                let h = reps_from(reps@, 0, base, stamp)->Ok_0;
                                let t = periods_from(ps, i + 1, stamp)->Ok_0;
                                let out = periods_from(ps, i, stamp)->Ok_0;
                                assert(period_readings(ps[i], stamp)->Ok_0 == h);
                                assert(out == h + t);
                                assert forall|k: int| 0 <= k < h.len() implies base <= (
                                #[trigger] h[k]).observation_time <= base + 86340 by {
                                    assert(rep_offset(period_reps(ps[i])[k])->Some_0 <= 1439);
                                    assert(h[k].observation_time == base + 60 * rep_offset(
                                        reps@[k],
                                    )->Some_0);
                                }
                                if t.len() > 0 {
                                    assert(i + 1 < ps.len());
                                    assert(base + 86400 <= period_base(ps[i + 1])->Some_0);
                                }
                                assert forall|a: int, b: int| 0 <= a < b < out.len() implies (
                                #[trigger] out[a]).observation_time < (
                                #[trigger] out[b]).observation_time by {
                                    if b < h.len() {
                                        assert(out[a] == h[a] && out[b] == h[b]);
                                        assert(rep_offset(period_reps(ps[i])[a])->Some_0
                                            < rep_offset(period_reps(ps[i])[b])->Some_0);
                                        assert(h[a].observation_time == base + 60 * rep_offset(
                                            reps@[a],
                                        )->Some_0);
                                        assert(h[b].observation_time == base + 60 * rep_offset(
                                            reps@[b],
                                        )->Some_0);
                                    } else if a >= h.len() {
                                        assert(out[a] == t[a - h.len()] && out[b] == t[b
                                            - h.len()]);
                                    } else {
                                        assert(out[a] == h[a] && out[b] == t[b - h.len()]);
                                        assert(h[a].observation_time <= base + 86340);
                                        assert(t[b - h.len()].observation_time >= period_base(
                                            ps[i + 1],
                                        )->Some_0);
                                    }
                                }
                                assert forall|k: int| 0 <= k < out.len() implies (
                                #[trigger] out[k]).observation_time >= base by {
                                    if k < h.len() {
                                        assert(out[k] == h[k]);
                                    } else {
                                        assert(out[k] == t[k - h.len()]);
                                        assert(t[k - h.len()].observation_time >= period_base(
                                            ps[i + 1],
                                        )->Some_0);
                                    }
                                }
                            },
                            _ => {
                                assert(false);
                            },
                        }
                    },
                    None => {
                        assert(false);
                    },
                }
            },
            _ => {
                assert(false);
            },
        }
    }
}

/// Law: when the document is chronological — dates strictly increasing
/// across Periods, offsets strictly increasing within each Period and
/// within the day — the observation times of the whole run strictly
/// increase in emission order.
pub proof fn lemma_times_strictly_increase(doc: Node, stamp: int)
    requires
        readings_of(doc, stamp) is Ok,
        chronological(periods_of(doc)->Some_0),
    ensures
        strictly_increasing_times(readings_of(doc, stamp)->Ok_0),
{
    match periods_of(doc) {
        Some(ps) => {
            lemma_periods_monotone(ps, 0, stamp);
        },
        None => {
            assert(false);
        },
    }
}

/// Parse one Rep node into a reading.
fn parse_rep(rep: &Node, base: i64, stamp: i64) -> (r: Result<Reading, Error>)
    requires
        min_date_epoch() <= base as int <= max_date_epoch(),
    ensures
        match rep_reading(*rep, base as int, stamp as int) {
            Ok(m) => r matches Ok(v) && v@ == m,
            Err(e) => r == Err::<Reading, Error>(e),
        },
{
    let offset_s = match node_field(rep, &("$".to_owned())) {
        Some(Node::Text(o)) => o,
        _ => {
            return Err(Error::StructureError);
        },
    };
    let minutes = match parse_offset(offset_s.as_str()) {
        Some(v) => v,
        None => {
            return Err(Error::FormatError);
        },
    };
    let temp_s = match node_field(rep, &("F".to_owned())) {
        Some(Node::Text(t)) => t,
        _ => {
            return Err(Error::StructureError);
        },
    };
    let temp = match parse_temperature(temp_s.as_str()) {
        Some(v) => v,
        None => {
            return Err(Error::FormatError);
        },
    };
    let obs = base + 60 * (minutes as i64);
    Ok(Reading { observation_time: obs, temperature: temp, ingestion_time: stamp })
}

/// Parse one Period node into its readings, in document order.
fn parse_period(p: &Node, stamp: i64) -> (r: Result<Vec<Reading>, Error>)
    ensures
        match period_readings(*p, stamp as int) {
            Ok(s) => r matches Ok(v) && reading_views(v@) == s,
            Err(e) => r == Err::<Vec<Reading>, Error>(e),
        },
{
    let date_s = match node_field(p, &("value".to_owned())) {
        Some(Node::Text(ds)) => ds,
        _ => {
            return Err(Error::StructureError);
        },
    };
    let base = match parse_date(date_s.as_str()) {
        Some(b) => b,
        None => {
            return Err(Error::FormatError);
        },
    };
    let reps = match node_field(p, &("Rep".to_owned())) {
        Some(Node::List(rs)) => rs,
        _ => {
            return Err(Error::StructureError);
        },
    };
    let ghost spec_all = reps_from(reps@, 0, base as int, stamp as int);
    proof {
        assert(period_readings(*p, stamp as int) == spec_all);
    }
    let n = reps.len();
    let mut out: Vec<Reading> = Vec::new();
    let mut i: usize = 0;
    proof {
        assert(reading_views(out@) =~= Seq::<ReadingModel>::empty());
        match spec_all {
            Ok(t) => {
                assert(reading_views(out@) + t =~= t);
            },
            Err(_) => {},
        }
    }
    while i < n
        invariant
            n == reps@.len(),
            0 <= i <= n,
            min_date_epoch() <= base as int <= max_date_epoch(),
            spec_all == reps_from(reps@, 0, base as int, stamp as int),
            period_readings(*p, stamp as int) == spec_all,
            spec_all == (match reps_from(reps@, i as int, base as int, stamp as int) {
                Ok(t) => Ok::<Seq<ReadingModel>, Error>(reading_views(out@) + t),
                Err(e) => Err::<Seq<ReadingModel>, Error>(e),
            }),
        decreases n - i,
    {
        match parse_rep(&reps[i], base, stamp) {
            Ok(rd) => {
                let ghost prev_views = reading_views(out@);
                out.push(rd);
                proof {
                    assert(reading_views(out@) =~= prev_views + seq![rd@]);
                    match reps_from(reps@, i as int + 1, base as int, stamp as int) {
                        Ok(t) => {
                            assert(prev_views + (seq![rd@] + t) =~= (prev_views + seq![rd@]) + t);
                        },
                        Err(_) => {},
                    }
                }
            },
            Err(e) => {
                proof {
                    assert(rep_reading(reps@[i as int], base as int, stamp as int) == Err::<
                        ReadingModel,
                        Error,
                    >(e));
                    assert(reps_from(reps@, i as int, base as int, stamp as int) == Err::<
                        Seq<ReadingModel>,
                        Error,
                    >(e));
                }
                return Err(e);
            },
        }
        i = i + 1;
    }
    proof {
        match spec_all {
            Ok(t) => {
                assert(reading_views(out@) + Seq::<ReadingModel>::empty() =~= reading_views(
                    out@,
                ));
            },
            Err(_) => {},
        }
    }
    Ok(out)
}

/// Parse a whole document into the readings of one run.
///
/// The result is exactly `readings_of` the document: one reading per Rep
/// node, in document order, every one stamped with the `stamp` the caller
/// captured before the run, or the error of the first fault.
pub fn parse_document(doc: &Node, stamp: i64) -> (r: Result<Vec<Reading>, Error>)
    ensures
        match readings_of(*doc, stamp as int) {
            Ok(s) => r matches Ok(v) && reading_views(v@) == s,
            Err(e) => r == Err::<Vec<Reading>, Error>(e),
        },
{
    let site = match node_field(doc, &("SiteRep".to_owned())) {
        Some(n) => n,
        None => {
            return Err(Error::StructureError);
        },
    };
    let dv = match node_field(site, &("DV".to_owned())) {
        Some(n) => n,
        None => {
            return Err(Error::StructureError);
        },
    };
    let loc = match node_field(dv, &("Location".to_owned())) {
        Some(n) => n,
        None => {
            return Err(Error::StructureError);
        },
    };
    let periods = match node_field(loc, &("Period".to_owned())) {
        Some(Node::List(ps)) => ps,
        _ => {
            return Err(Error::StructureError);
        },
    };
    let ghost spec_all = periods_from(periods@, 0, stamp as int);
    proof {
        assert(periods_of(*doc) == Some(periods@));
        assert(readings_of(*doc, stamp as int) == spec_all);
    }
    let n = periods.len();
    let mut out: Vec<Reading> = Vec::new();
    let mut i: usize = 0;
    proof {
        assert(reading_views(out@) =~= Seq::<ReadingModel>::empty());
        match spec_all {
            Ok(t) => {
                assert(reading_views(out@) + t =~= t);
            },
            Err(_) => {},
        }
    }
    while i < n
        invariant
            n == periods@.len(),
            0 <= i <= n,
            spec_all == periods_from(periods@, 0, stamp as int),
            readings_of(*doc, stamp as int) == spec_all,
            spec_all == (match periods_from(periods@, i as int, stamp as int) {
                Ok(t) => Ok::<Seq<ReadingModel>, Error>(reading_views(out@) + t),
                Err(e) => Err::<Seq<ReadingModel>, Error>(e),
            }),
        decreases n - i,
    {
        match parse_period(&periods[i], stamp) {
            Ok(mut h) => {
                let ghost prev_views = reading_views(out@);
                let ghost head_views = reading_views(h@);
                out.append(&mut h);
                proof {
                    assert(reading_views(out@) =~= prev_views + head_views);
                    match periods_from(periods@, i as int + 1, stamp as int) {
                        Ok(t) => {
                            assert(prev_views + (head_views + t) =~= (prev_views + head_views)
                                + t);
                        },
                        Err(_) => {},
                    }
                }
            },
            Err(e) => {
                proof {
                    assert(period_readings(periods@[i as int], stamp as int) == Err::<
                        Seq<ReadingModel>,
                        Error,
                    >(e));
                    assert(periods_from(periods@, i as int, stamp as int) == Err::<
                        Seq<ReadingModel>,
                        Error,
                    >(e));
                }
                return Err(e);
            },
        }
        i = i + 1;
    }
    proof {
        match spec_all {
            Ok(t) => {
                assert(reading_views(out@) + Seq::<ReadingModel>::empty() =~= reading_views(
                    out@,
                ));
            },
            Err(_) => {},
        }
    }
    Ok(out)
}

} // verus!
