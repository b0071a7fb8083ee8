//! Request-level decisions of the HTTP interface: duplicate detection for bulk
//! imports, and the windows that result, roll-up and failure-event queries read.

use vstd::prelude::*;

use crate::models::{NewTarget, ProbeType, Target};
use crate::text::{
    decimal, is_digit, lemma_decimal_digits, lemma_decimal_injective, lowercase_text, push_decimal,
    unicode_lowercase,
};
use crate::time::{
    parse_timestamp, rfc3339_reading, spec_timestamp_from_reading, Timestamp, TimestampError,
};

verus! {

/// Identity of a target for duplicate detection: probe kind, lower-cased host
/// and port (empty when there is none), joined by colons.
pub open spec fn key_text(probe_type: ProbeType, host: Seq<char>, port: Option<u16>) -> Seq<char> {
    probe_type.text() + ":"@ + unicode_lowercase(host) + ":"@ + match port {
        Some(p) => decimal(p as nat),
        None => Seq::<char>::empty(),
    }
}

/// Key text built from an already lower-cased host.
pub open spec fn key_from_lowered_text(probe_type: ProbeType, lowered: Seq<char>, port: Option<u16>) -> Seq<char> {
    probe_type.text() + ":"@ + lowered + ":"@ + match port {
        Some(p) => decimal(p as nat),
        None => Seq::<char>::empty(),
    }
}

/// Joins a probe kind, a lower-cased host and a port (empty when there is none)
/// into a duplicate-detection key.
pub fn key_from_lowered(probe_type: ProbeType, lowered: &str, port: Option<u16>) -> (r: String)
    ensures
        r@ == key_from_lowered_text(probe_type, lowered@, port),
{
    let mut key = String::from_str(probe_type.as_str());
    key.append(":");
    key.append(lowered);
    key.append(":");
    match port {
        Some(p) => push_decimal(&mut key, p as u64),
        None => {},
    }
    assert(key@ =~= key_from_lowered_text(probe_type, lowered@, port));
    key
}

/// The port part of a key: the decimal port, or nothing.
pub open spec fn port_text(port: Option<u16>) -> Seq<char> {
    match port {
        Some(p) => decimal(p as nat),
        None => Seq::<char>::empty(),
    }
}

/// Two keys built from lower-cased hosts are equal exactly when their probe
/// kinds, lower-cased hosts and ports are.
pub proof fn lemma_key_from_lowered_identifies(
    p1: ProbeType,
    l1: Seq<char>,
    o1: Option<u16>,
    p2: ProbeType,
    l2: Seq<char>,
    o2: Option<u16>,
)
    ensures
        key_from_lowered_text(p1, l1, o1) == key_from_lowered_text(p2, l2, o2) <==> (p1 == p2 && l1
            == l2 && o1 == o2),
{
    reveal_strlit("icmp");
    reveal_strlit("tcp");
    reveal_strlit(":");
    let a1 = p1.text() + ":"@ + l1 + ":"@;
    let a2 = p2.text() + ":"@ + l2 + ":"@;
    let d1 = port_text(o1);
    let d2 = port_text(o2);
    let k1 = key_from_lowered_text(p1, l1, o1);
    let k2 = key_from_lowered_text(p2, l2, o2);
    assert(k1 =~= a1 + d1);
    assert(k2 =~= a2 + d2);
    if let Some(x) = o1 {
        lemma_decimal_digits(x as nat);
    }
    if let Some(x) = o2 {
        lemma_decimal_digits(x as nat);
    }
    assert(forall|i: int| 0 <= i < d1.len() ==> is_digit(#[trigger] d1[i]));
    assert(forall|i: int| 0 <= i < d2.len() ==> is_digit(#[trigger] d2[i]));
    if k1 == k2 {
        let n = k1.len();
        assert(a1[a1.len() - 1] == ':');
        assert(a2[a2.len() - 1] == ':');
        if d1.len() < d2.len() {
            let i = n - d1.len() - 1;
            assert(k1[i] == a1[a1.len() - 1]);
            assert(k2[i] == d2[i - a2.len()]);
            assert(false);
        }
        if d2.len() < d1.len() {
            let i = n - d2.len() - 1;
            assert(k2[i] == a2[a2.len() - 1]);
            assert(k1[i] == d1[i - a1.len()]);
            assert(false);
        }
        assert(a1 =~= k1.take(a1.len() as int));
        assert(a2 =~= k2.take(a2.len() as int));
        assert(d1 =~= k1.skip(a1.len() as int));
        assert(d2 =~= k2.skip(a2.len() as int));
        assert(a1 == a2);
        assert(d1 == d2);
        assert(a1[0] == p1.text()[0]);
        assert(a2[0] == p2.text()[0]);
        assert(p1 == p2);
        let t: int = p1.text().len() as int + 1;
        assert(l1 =~= a1.subrange(t, a1.len() - 1));
        assert(l2 =~= a2.subrange(t, a2.len() - 1));
        match (o1, o2) {
            (Some(x), Some(y)) => {
                lemma_decimal_injective(x as nat, y as nat);
            },
            (Some(x), None) => {
                assert(d1.len() > 0);
            },
            (None, Some(y)) => {
                assert(d2.len() > 0);
            },
            (None, None) => {},
        }
    }
}

/// Duplicate-detection keys are equal exactly when the probe kinds, the
/// lower-cased hosts and the ports are; nothing else about a target enters them.
pub proof fn lemma_key_identifies_target(
    p1: ProbeType,
    h1: Seq<char>,
    o1: Option<u16>,
    p2: ProbeType,
    h2: Seq<char>,
    o2: Option<u16>,
)
    ensures
        key_text(p1, h1, o1) == key_text(p2, h2, o2) <==> (p1 == p2 && unicode_lowercase(h1)
            == unicode_lowercase(h2) && o1 == o2),
        key_text(p1, h1, o1) == key_from_lowered_text(p1, unicode_lowercase(h1), o1),
{
    assert(key_text(p1, h1, o1) == key_from_lowered_text(p1, unicode_lowercase(h1), o1));
    assert(key_text(p2, h2, o2) == key_from_lowered_text(p2, unicode_lowercase(h2), o2));
    lemma_key_from_lowered_identifies(p1, unicode_lowercase(h1), o1, p2, unicode_lowercase(h2), o2);
}

fn key_of(probe_type: ProbeType, host: &str, port: Option<u16>) -> (r: String)
    ensures
        r@ == key_text(probe_type, host@, port),
{
    let lower = lowercase_text(host);
    key_from_lowered(probe_type, lower.as_str(), port)
}

/// Duplicate-detection key of a stored target.
pub fn target_key(target: &Target) -> (r: String)
    ensures
        r@ == key_text(target.probe_type, target.host@, target.port),
{
    key_of(target.probe_type, target.host.as_str(), target.port)
}

/// Duplicate-detection key of a submitted target.
pub fn new_target_key(target: &NewTarget) -> (r: String)
    ensures
        r@ == key_text(target.probe_type, target.host@, target.port),
{
    key_of(target.probe_type, target.host.as_str(), target.port)
}

/// How a skipped submission is reported: its host, then `:port` when it has one.
pub open spec fn skipped_label_text(host: Seq<char>, port: Option<u16>) -> Seq<char> {
    host + match port {
        Some(p) => ":"@ + decimal(p as nat),
        None => Seq::<char>::empty(),
    }
}

/// The report line for a submission that a bulk import skips.
pub fn skipped_label(target: &NewTarget) -> (r: String)
    ensures
        r@ == skipped_label_text(target.host@, target.port),
{
    let mut label = String::from_str(target.host.as_str());
    match target.port {
        Some(p) => {
            label.append(":");
            push_decimal(&mut label, p as u64);
        },
        None => {},
    }
    assert(label@ =~= skipped_label_text(target.host@, target.port));
    label
}

/// What a bulk import does with one submission.
#[derive(Debug)]
pub enum BulkStep {
    /// Create the target.
    Create,
    /// Leave it out; its report line.
    Skip(String),
}

/// Keys of the stored targets.
pub open spec fn stored_keys(existing: Seq<Target>) -> Seq<Seq<char>> {
    existing.map_values(|t: Target| key_text(t.probe_type, t.host@, t.port))
}

/// Key of the submission at `i`.
pub open spec fn submitted_key(inputs: Seq<NewTarget>, i: int) -> Seq<char> {
    key_text(inputs[i].probe_type, inputs[i].host@, inputs[i].port)
}

/// Submission `i` is a duplicate: its key is a stored target's key, or the key of
/// an earlier submission that this import creates.
pub open spec fn is_duplicate(
    existing: Seq<Target>,
    inputs: Seq<NewTarget>,
    steps: Seq<BulkStep>,
    i: int,
) -> bool {
    ||| stored_keys(existing).contains(submitted_key(inputs, i))
    ||| exists|j: int|
        0 <= j < i && steps[j] is Create && #[trigger] submitted_key(inputs, j) == submitted_key(
            inputs,
            i,
        )
}

/// The plan is the import's decision for every submission, in order.
pub open spec fn is_bulk_plan(existing: Seq<Target>, inputs: Seq<NewTarget>, steps: Seq<BulkStep>) -> bool {
    &&& steps.len() == inputs.len()
    &&& forall|i: int|
        0 <= i < inputs.len() ==> match #[trigger] steps[i] {
            BulkStep::Create => !is_duplicate(existing, inputs, steps, i),
            BulkStep::Skip(label) => is_duplicate(existing, inputs, steps, i) && label@
                == skipped_label_text(inputs[i].host@, inputs[i].port),
        }
}

/// The character sequences of a list of texts.
pub open spec fn texts(list: Seq<String>) -> Seq<Seq<char>> {
    list.map_values(|s: String| s@)
}

fn contains_text(list: &Vec<String>, item: &String) -> (r: bool)
    ensures
        r == texts(list@).contains(item@),
{
    let mut i: usize = 0;
    while i < list.len()
        invariant
            i <= list.len(),
            forall|k: int| 0 <= k < i ==> list@[k]@ != item@,
        decreases list.len() - i,
    {
        if list[i] == *item {
            assert(texts(list@)[i as int] == item@);
            return true;
        }
        i = i + 1;
    }
    proof {
        if texts(list@).contains(item@) {
            let k = choose|k: int| 0 <= k < list@.len() && #[trigger] texts(list@)[k] == item@;
            assert(list@[k]@ == item@);
        }
    }
    false
}

/// Decides, submission by submission, which targets of a bulk import to create
/// and which to skip as duplicates of stored targets or of earlier submissions.
pub fn plan_bulk(existing: &Vec<Target>, inputs: &Vec<NewTarget>) -> (r: Vec<BulkStep>)
    ensures
        is_bulk_plan(existing@, inputs@, r@),
{
    let mut known: Vec<String> = Vec::new();
    let mut e: usize = 0;
    while e < existing.len()
        invariant
            e <= existing.len(),
            texts(known@) =~= stored_keys(existing@).take(e as int),
        decreases existing.len() - e,
    {
        let k = target_key(&existing[e]);
        assert(stored_keys(existing@)[e as int] == k@);
        let ghost before = texts(known@);
        known.push(k);
        assert(texts(known@) =~= before.push(k@));
        e = e + 1;
        assert(texts(known@) =~= stored_keys(existing@).take(e as int));
    }
    assert(stored_keys(existing@).take(existing.len() as int) =~= stored_keys(existing@));
    let ghost stored = stored_keys(existing@);
    let mut steps: Vec<BulkStep> = Vec::new();
    let mut i: usize = 0;
    while i < inputs.len()
        invariant
            i <= inputs.len(),
            stored == stored_keys(existing@),
            steps@.len() == i,
            forall|x: Seq<char>|
                texts(known@).contains(x) <==> (stored.contains(x) || exists|
                    j: int,
                | 0 <= j < i && steps@[j] is Create && #[trigger] submitted_key(inputs@, j) == x),
            forall|k: int|
                0 <= k < i ==> match #[trigger] steps@[k] {
                    BulkStep::Create => !is_duplicate(existing@, inputs@, steps@, k),
                    BulkStep::Skip(label) => is_duplicate(existing@, inputs@, steps@, k) && label@
                        == skipped_label_text(inputs@[k].host@, inputs@[k].port),
                },
        decreases inputs.len() - i,
    {
        let ghost old_steps = steps@;
        let key = new_target_key(&inputs[i]);
        assert(key@ == submitted_key(inputs@, i as int));
        if contains_text(&known, &key) {
            steps.push(BulkStep::Skip(skipped_label(&inputs[i])));
        } else {
            let ghost old_known = texts(known@);
            known.push(key);
            steps.push(BulkStep::Create);
            assert forall|x: Seq<char>|
                texts(known@).contains(x) <==> (stored.contains(x) || exists|
                    j: int,
                | 0 <= j < i + 1 && steps@[j] is Create && #[trigger] submitted_key(inputs@, j)
                    == x) by {
                assert(texts(known@) =~= old_known.push(key@));
                if texts(known@).contains(x) {
                    if x == key@ {
                        assert(steps@[i as int] is Create);
                        assert(submitted_key(inputs@, i as int) == x);
                    } else {
                        assert(old_known.contains(x));
                        if !stored.contains(x) {
                            let j = choose|j: int|
                                0 <= j < i && old_steps[j] is Create && #[trigger] submitted_key(
                                    inputs@,
                                    j,
                                ) == x;
                            assert(steps@[j] == old_steps[j]);
                        }
                    }
                }
                if stored.contains(x) {
                    assert(old_known.contains(x));
                    let k = choose|k: int| 0 <= k < old_known.len() && #[trigger] old_known[k] == x;
                    assert(texts(known@)[k] == x);
                }
                if exists|j: int|
                    0 <= j < i + 1 && steps@[j] is Create && #[trigger] submitted_key(inputs@, j)
                        == x {
                    let j = choose|j: int|
                        0 <= j < i + 1 && steps@[j] is Create && #[trigger] submitted_key(inputs@, j)
                            == x;
                    if j < i {
                        assert(old_steps[j] == steps@[j]);
                        assert(old_known.contains(x));
                        let k = choose|k: int| 0 <= k < old_known.len() && #[trigger] old_known[k] == x;
                        assert(texts(known@)[k] == x);
                    } else {
                        assert(texts(known@)[old_known.len() as int] == x);
                    }
                }
            }
        }
        assert forall|k: int|
            0 <= k < i + 1 implies match #[trigger] steps@[k] {
            BulkStep::Create => !is_duplicate(existing@, inputs@, steps@, k),
            BulkStep::Skip(label) => is_duplicate(existing@, inputs@, steps@, k) && label@
                == skipped_label_text(inputs@[k].host@, inputs@[k].port),
        } by {
            if k < i {
                assert(steps@[k] == old_steps[k]);
                assert forall|j: int| 0 <= j < k implies steps@[j] == old_steps[j] by {}
            }
        }
        i = i + 1;
    }
    steps
}


/// A bulk import never creates a duplicate: no created submission has the key
/// of a stored target, and no two created submissions share a key.
pub proof fn lemma_bulk_creates_no_duplicates(
    existing: Seq<Target>,
    inputs: Seq<NewTarget>,
    steps: Seq<BulkStep>,
)
    requires
        is_bulk_plan(existing, inputs, steps),
    ensures
        forall|i: int|
            0 <= i < inputs.len() && #[trigger] steps[i] is Create ==> !stored_keys(
                existing,
            ).contains(submitted_key(inputs, i)),
        forall|i: int, j: int|
            0 <= i < j < inputs.len() && #[trigger] steps[i] is Create && #[trigger] steps[j] is Create
                ==> submitted_key(inputs, i) != submitted_key(inputs, j),
{
    assert forall|i: int, j: int|
        0 <= i < j < inputs.len() && #[trigger] steps[i] is Create && #[trigger] steps[j] is Create
            implies submitted_key(inputs, i) != submitted_key(inputs, j) by {
        assert(!is_duplicate(existing, inputs, steps, j));
    }
}

/// Error answer of the HTTP interface; its message is shown to the client.
#[derive(Debug)]
pub struct ApiError {
    pub message: String,
}

/// Message for a `before` bound outside the range that instants hold.
pub open spec fn out_of_range_message() -> Seq<char> {
    "timestamp out of range"@
}

/// End of a query window: the parsed `before` bound when one is given, else `now`.
pub open spec fn spec_window_end(before: Option<Seq<char>>, now: Timestamp) -> Result<
    Timestamp,
    Seq<char>,
> {
    match before {
        None => Ok(now),
        Some(text) => match spec_timestamp_from_reading(rfc3339_reading(text)) {
            Ok(t) => Ok(t),
            Err(Some(message)) => Err(message),
            Err(None) => Err(out_of_range_message()),
        },
    }
}

/// The optional text's characters.
pub open spec fn text_of(value: Option<String>) -> Option<Seq<char>> {
    match value {
        Some(s) => Some(s@),
        None => None,
    }
}

/// End of a query window: `before` read as RFC 3339 when given, else `now`.
pub fn window_end(before: &Option<String>, now: Timestamp) -> (r: Result<Timestamp, ApiError>)
    requires
        now.wf(),
    ensures
        match (r, spec_window_end(text_of(*before), now)) {
            (Ok(t), Ok(u)) => t == u && t.wf(),
            (Err(e), Err(m)) => e.message@ == m,
            _ => false,
        },
{
    match before {
        None => Ok(now),
        Some(text) => match parse_timestamp(text.as_str()) {
            Ok(t) => Ok(t),
            Err(TimestampError::Invalid(message)) => Err(ApiError { message }),
            Err(TimestampError::Unrepresentable) => Err(
                ApiError { message: String::from_str("timestamp out of range") },
            ),
        },
    }
}

/// Query of the results endpoint.
#[derive(Debug)]
pub struct ResultsQuery {
    pub limit: Option<i64>,
    pub minutes: Option<i64>,
    pub before: Option<String>,
}

/// Number of recent results returned when the query names no limit.
pub const DEFAULT_RESULTS_LIMIT: i64 = 500i64;

/// What the results endpoint reads.
#[derive(Clone, Copy, Debug, PartialEq, Eq, Structural)]
pub enum ResultsPlan {
    /// All results of the window of `minutes` that ends at `end_at`, oldest first.
    Window { minutes: i64, end_at: Timestamp },
    /// The `limit` most recent results, newest first.
    Recent { limit: i64 },
}

impl ResultsQuery {
    /// A window read when minutes are given (ending at `before`, else `now`);
    /// otherwise the most recent results, 500 unless a limit is given.
    pub fn plan(&self, now: Timestamp) -> (r: Result<ResultsPlan, ApiError>)
        requires
            now.wf(),
        ensures
            match self.minutes {
                Some(m) => match (r, spec_window_end(text_of(self.before), now)) {
                    (Ok(ResultsPlan::Window { minutes, end_at }), Ok(end)) => minutes == m && end_at
                        == end && end_at.wf(),
                    (Err(e), Err(message)) => e.message@ == message,
                    _ => false,
                },
                None => r == Ok::<ResultsPlan, ApiError>(
                    ResultsPlan::Recent {
                        limit: match self.limit {
                            Some(l) => l,
                            None => DEFAULT_RESULTS_LIMIT,
                        },
                    },
                ),
            },
    {
        match self.minutes {
            Some(minutes) => match window_end(&self.before, now) {
                Ok(end_at) => Ok(ResultsPlan::Window { minutes, end_at }),
                Err(e) => Err(e),
            },
            None => Ok(
                ResultsPlan::Recent {
                    limit: match self.limit {
                        Some(l) => l,
                        None => DEFAULT_RESULTS_LIMIT,
                    },
                },
            ),
        }
    }
}

/// Query of the roll-up and failure-event endpoints.
#[derive(Debug)]
pub struct RollupQuery {
    pub minutes: Option<i64>,
    pub before: Option<String>,
}

/// Window length, in minutes, when a query names none.
pub const DEFAULT_WINDOW_MINUTES: i64 = 60i64;

/// Largest gap, in seconds, between failures of one reported failure event.
pub const FAILURE_EVENT_GAP_SECONDS: i64 = 90i64;

impl RollupQuery {
    /// The window read: its length in minutes (60 unless given) and its end
    /// (`before`, else `now`).
    pub fn window(&self, now: Timestamp) -> (r: Result<(i64, Timestamp), ApiError>)
        requires
            now.wf(),
        ensures
            match (r, spec_window_end(text_of(self.before), now)) {
                (Ok((minutes, end_at)), Ok(end)) => {
                    &&& minutes == (match self.minutes {
                        Some(m) => m,
                        None => DEFAULT_WINDOW_MINUTES,
                    })
                    &&& end_at == end
                    &&& end_at.wf()
                },
                (Err(e), Err(message)) => e.message@ == message,
                _ => false,
            },
    {
        match window_end(&self.before, now) {
            Ok(end_at) => Ok(
                (
                    match self.minutes {
                        Some(m) => m,
                        None => DEFAULT_WINDOW_MINUTES,
                    },
                    end_at,
                ),
            ),
            Err(e) => Err(e),
        }
    }
}

/// Body of a bulk import request.
#[derive(Debug)]
pub struct BulkTargetsRequest {
    pub targets: Vec<NewTarget>,
}

/// Answer to a bulk import: the targets created and the report lines of those skipped.
#[derive(Debug)]
pub struct BulkTargetsResponse {
    pub created: Vec<Target>,
    pub skipped: Vec<String>,
}

/// Answer of the metadata endpoint.
#[derive(Debug)]
pub struct MetaResponse {
    pub version: &'static str,
}

} // verus!
