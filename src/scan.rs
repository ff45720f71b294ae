use vstd::prelude::*;

use crate::prefix::{find_prefix, literal_prefix};
use crate::types::{ScanError, ScanMessage};

verus! {

/// How many listing calls in a row may fail before the scan gives up.
pub const MAX_LIST_ERRORS: u32 = 10;

/// Whether the object key `key` matches a glob set built of the one glob `pattern`.
pub uninterp spec fn glob_matches(pattern: Seq<char>, key: Seq<char>) -> bool;

/// Whether globset parses `pattern` and builds a glob set of it.
pub uninterp spec fn glob_builds(pattern: Seq<char>) -> bool;

/// Relies on globset::Glob::new, GlobSetBuilder::build and GlobSet::is_match:
/// builds a set of the one glob `pattern`, handing back globset's parse or
/// size error as text, and says whether `key` matches it. Whether the set
/// builds depends on the pattern alone.
#[verifier::external_body]
fn key_matches(pattern: &str, key: &str) -> (r: Result<bool, String>)
    ensures
        r is Ok <==> glob_builds(pattern@),
        r matches Ok(b) ==> b == glob_matches(pattern@, key@),
{
    let glob = globset::Glob::new(pattern).map_err(|e| e.to_string())?;
    let set = globset::GlobSetBuilder::new().add(glob).build().map_err(|e| e.to_string())?;
    Ok(set.is_match(key))
}

pub open spec fn pattern_view(pattern: Option<&str>) -> Option<Seq<char>> {
    match pattern {
        Some(p) => Some(p@),
        None => None,
    }
}

/// Whether a key is read: without a pattern every key is.
pub open spec fn key_selected(pattern: Option<Seq<char>>, key: Seq<char>) -> bool {
    match pattern {
        Some(p) => glob_matches(p, key),
        None => true,
    }
}

/// The keys of one listing page that are read, in listing order.
pub open spec fn selected_keys(pattern: Option<Seq<char>>, keys: Seq<Option<Seq<char>>>) -> Seq<
    Seq<char>,
>
    decreases keys.len(),
{
    if keys.len() == 0 {
        seq![]
    } else {
        let prev = selected_keys(pattern, keys.drop_last());
        match keys.last() {
            Some(k) => if key_selected(pattern, k) {
                prev.push(k)
            } else {
                prev
            },
            None => prev,
        }
    }
}

pub open spec fn key_views(keys: Seq<Option<String>>) -> Seq<Option<Seq<char>>> {
    keys.map_values(|k: Option<String>| match k {
        Some(s) => Some(s@),
        None => None,
    })
}

/// Whether some key of a listing page is present.
pub open spec fn some_key_present(keys: Seq<Option<String>>) -> bool {
    exists|i: int| 0 <= i < keys.len() && keys[i] is Some
}

pub open spec fn string_views(v: Seq<String>) -> Seq<Seq<char>> {
    v.map_values(|s: String| s@)
}

/// The prefix that the listing call is narrowed to: the literal start of the pattern.
pub fn listing_prefix(pattern: Option<&str>) -> (r: Option<String>)
    ensures
        r is Some == pattern is Some,
        r matches Some(p) ==> p@ == literal_prefix(pattern->0@),
{
    match pattern {
        Some(p) => Some(find_prefix(p)),
        None => None,
    }
}

/// The keys of a listing page that the scan reads: those present that match
/// the pattern, in the order the listing gave them. A pattern that cannot be
/// built into a matcher is reported, and no key is read.
pub fn select_keys(pattern: Option<&str>, keys: &Vec<Option<String>>) -> (r: Result<
    Vec<String>,
    ScanError,
>)
    ensures
        r is Err <==> (pattern matches Some(p) && !glob_builds(p@) && some_key_present(keys@)),
        r matches Ok(v) ==> string_views(v@) == selected_keys(
            pattern_view(pattern),
            key_views(keys@),
        ),
        r matches Err(e) ==> e is Pattern,
{
    let mut out: Vec<String> = Vec::new();
    let mut i: usize = 0;
    while i < keys.len()
        invariant
            i <= keys@.len(),
            string_views(out@) == selected_keys(
                pattern_view(pattern),
                key_views(keys@.subrange(0, i as int)),
            ),
            pattern matches Some(p) && !glob_builds(p@) ==> forall|j: int|
                0 <= j < i ==> !(#[trigger] keys@[j] is Some),
        decreases keys@.len() - i,
    {
        proof {
            assert(key_views(keys@.subrange(0, i + 1)).drop_last() == key_views(
                keys@.subrange(0, i as int),
            ));
        }
        match &keys[i] {
            Some(k) => {
                let keep = match pattern {
                    Some(p) => match key_matches(p, k.as_str()) {
                        Ok(b) => b,
                        Err(e) => {
                            return Err(ScanError::Pattern(e));
                        },
                    },
                    None => true,
                };
                if keep {
                    let kc = k.clone();
                    out.push(kc);
                    proof {
                        assert(string_views(out@) == string_views(out@.drop_last()).push(kc@));
                    }
                }
            },
            None => {},
        }
        i = i + 1;
    }
    proof {
        assert(keys@.subrange(0, keys@.len() as int) == keys@);
    }
    Ok(out)
}

/// The lines of a byte string, split at each newline byte: one more line than
/// there are newlines, the last of them empty where the bytes end in a newline.
pub open spec fn lines_of(s: Seq<u8>) -> Seq<Seq<u8>>
    decreases s.len(),
{
    if s.len() == 0 {
        seq![seq![]]
    } else {
        let prev = lines_of(s.drop_last());
        if s.last() == 10u8 {
            prev.push(seq![])
        } else {
            prev.update(prev.len() - 1, prev.last().push(s.last()))
        }
    }
}

pub proof fn lemma_lines_nonempty(s: Seq<u8>)
    ensures
        lines_of(s).len() >= 1,
    decreases s.len(),
{
    if s.len() > 0 {
        lemma_lines_nonempty(s.drop_last());
    }
}

pub open spec fn byte_views(v: Seq<Vec<u8>>) -> Seq<Seq<u8>> {
    v.map_values(|l: Vec<u8>| l@)
}

/// Splits an object's body into its lines, in order.
pub fn split_lines(buf: &[u8]) -> (r: Vec<Vec<u8>>)
    ensures
        byte_views(r@) == lines_of(buf@),
{
    let mut lines: Vec<Vec<u8>> = Vec::new();
    let mut cur: Vec<u8> = Vec::new();
    let mut i: usize = 0;
    proof {
        assert(buf@.subrange(0, 0) =~= Seq::<u8>::empty());
        assert(byte_views(lines@).push(cur@) =~= lines_of(buf@.subrange(0, 0)));
    }
    while i < buf.len()
        invariant
            i <= buf@.len(),
            byte_views(lines@).push(cur@) == lines_of(buf@.subrange(0, i as int)),
        decreases buf@.len() - i,
    {
        let b = buf[i];
        let ghost prefix = buf@.subrange(0, i + 1);
        proof {
            assert(prefix.drop_last() == buf@.subrange(0, i as int));
            assert(prefix.last() == b);
            lemma_lines_nonempty(buf@.subrange(0, i as int));
        }
        if b == 10u8 {
            let done = cur;
            lines.push(done);
            cur = Vec::new();
            proof {
                assert(byte_views(lines@) == byte_views(lines@.drop_last()).push(done@));
                assert(byte_views(lines@).push(cur@) =~= lines_of(prefix));
            }
        } else {
            cur.push(b);
            proof {
                assert(byte_views(lines@).push(cur@) =~= lines_of(prefix));
            }
        }
        i = i + 1;
    }
    lines.push(cur);
    proof {
        assert(buf@.subrange(0, buf@.len() as int) == buf@);
        assert(byte_views(lines@) =~= byte_views(lines@.drop_last()).push(lines@.last()@));
    }
    lines
}

/// What fetching one object came to.
#[derive(Clone, Debug)]
pub enum FetchOutcome {
    /// The fetch call failed, with the backend's description.
    GetFailed(String),
    /// The response carried no body.
    NoBody,
    /// The body could not be read to its end.
    ReadFailed(String),
    /// The whole body.
    Body(Vec<u8>),
}

/// What one message on the channel says, with its record seen as bytes.
pub open spec fn message_view(m: ScanMessage) -> Result<Seq<u8>, ScanError> {
    match m {
        Ok(v) => Ok(v@),
        Err(e) => Err(e),
    }
}

pub open spec fn message_views(ms: Seq<ScanMessage>) -> Seq<Result<Seq<u8>, ScanError>> {
    ms.map_values(|m: ScanMessage| message_view(m))
}

/// The messages that one fetched object puts on the channel, in order: each
/// line of its body, or a single failure.
pub open spec fn object_output(o: FetchOutcome) -> Seq<Result<Seq<u8>, ScanError>> {
    match o {
        FetchOutcome::GetFailed(e) => seq![Err(ScanError::Get(e))],
        FetchOutcome::NoBody => seq![],
        FetchOutcome::ReadFailed(e) => seq![Err(ScanError::Read(e))],
        FetchOutcome::Body(b) => lines_of(b@).map_values(|l: Seq<u8>| Ok(l)),
    }
}

/// Whether the reader is to be woken after the object's messages are queued:
/// exactly when records were queued, that is when a body was read (even an
/// empty body is one, empty, line).
pub open spec fn object_wakes(o: FetchOutcome) -> bool {
    o is Body
}

/// The messages a scan puts on the channel for the objects it fetched, in listing order.
pub open spec fn scan_output(os: Seq<FetchOutcome>) -> Seq<Result<Seq<u8>, ScanError>>
    decreases os.len(),
{
    if os.len() == 0 {
        seq![]
    } else {
        scan_output(os.drop_last()) + object_output(os.last())
    }
}

/// The messages for objects fetched one after another are those of the first
/// objects followed by those of the rest.
pub proof fn lemma_scan_output_concat(a: Seq<FetchOutcome>, b: Seq<FetchOutcome>)
    ensures
        scan_output(a + b) == scan_output(a) + scan_output(b),
    decreases b.len(),
{
    if b.len() == 0 {
        assert(a + b == a);
        assert(scan_output(a) + scan_output(b) == scan_output(a));
    } else {
        lemma_scan_output_concat(a, b.drop_last());
        assert((a + b).drop_last() == a + b.drop_last());
        assert((a + b).last() == b.last());
        assert(scan_output(a + b) == scan_output(a) + scan_output(b.drop_last()) + object_output(
            b.last(),
        ));
    }
}

/// Objects are emitted in listing order, each one whole: the messages of the
/// `i`-th object stand after those of every object listed before it and before
/// those of every object listed after it.
pub proof fn lemma_objects_in_listing_order(os: Seq<FetchOutcome>, i: int)
    requires
        0 <= i < os.len(),
    ensures
        scan_output(os) == scan_output(os.take(i)) + object_output(os[i]) + scan_output(
            os.skip(i + 1),
        ),
{
    let one = seq![os[i]];
    assert(os == os.take(i) + one + os.skip(i + 1));
    lemma_scan_output_concat(os.take(i) + one, os.skip(i + 1));
    lemma_scan_output_concat(os.take(i), one);
    assert(one.drop_last() == Seq::<FetchOutcome>::empty());
    assert(one.last() == os[i]);
    assert(scan_output(one.drop_last()) == Seq::<Result<Seq<u8>, ScanError>>::empty());
    assert(scan_output(one) =~= Seq::<Result<Seq<u8>, ScanError>>::empty() + object_output(os[i]));
    assert(scan_output(one) == object_output(os[i]));
}

/// An object that cannot be fetched costs one reported failure and nothing
/// else: every message of the objects before and after it is still emitted.
pub proof fn lemma_failed_fetch_isolated(
    before: Seq<FetchOutcome>,
    e: String,
    after: Seq<FetchOutcome>,
)
    ensures
        scan_output(before + seq![FetchOutcome::GetFailed(e)] + after) == scan_output(before)
            + seq![Err::<Seq<u8>, ScanError>(ScanError::Get(e))] + scan_output(after),
{
    let os = before + seq![FetchOutcome::GetFailed(e)] + after;
    lemma_objects_in_listing_order(os, before.len() as int);
    assert(os.take(before.len() as int) == before);
    assert(os.skip(before.len() as int + 1) == after);
    assert(os[before.len() as int] == FetchOutcome::GetFailed(e));
}

/// Turns what fetching one object came to into the messages for the channel,
/// and says whether the reader is to be woken once they are queued.
pub fn object_messages(fetched: FetchOutcome) -> (r: (Vec<ScanMessage>, bool))
    ensures
        message_views(r.0@) == object_output(fetched),
        r.1 == object_wakes(fetched),
        r.1 <==> r.0@.len() > 0 && r.0@[0] is Ok,
{
    match fetched {
        FetchOutcome::GetFailed(e) => {
            let out = vec![Err(ScanError::Get(e))];
            proof {
                assert(message_views(out@) =~= object_output(fetched));
                assert(message_views(out@)[0] == message_view(out@[0]));
            }
            (out, false)
        },
        FetchOutcome::NoBody => {
            let out: Vec<ScanMessage> = Vec::new();
            proof {
                assert(message_views(out@) =~= object_output(fetched));
            }
            (out, false)
        },
        FetchOutcome::ReadFailed(e) => {
            let out = vec![Err(ScanError::Read(e))];
            proof {
                assert(message_views(out@) =~= object_output(fetched));
                assert(message_views(out@)[0] == message_view(out@[0]));
            }
            (out, false)
        },
        FetchOutcome::Body(buf) => {
            let lines = split_lines(buf.as_slice());
            let mut out: Vec<ScanMessage> = Vec::new();
            let mut i: usize = 0;
            while i < lines.len()
                invariant
                    i <= lines@.len(),
                    out@.len() == i,
                    byte_views(lines@) == lines_of(buf@),
                    message_views(out@) == byte_views(lines@).subrange(0, i as int).map_values(
                        |l: Seq<u8>| Ok::<Seq<u8>, ScanError>(l),
                    ),
                decreases lines@.len() - i,
            {
                let ghost prev = out@;
                let line = lines[i].clone();
                proof {
                    assert(line@ =~= lines@[i as int]@);
                    assert(byte_views(lines@)[i as int] == lines@[i as int]@);
                }
                out.push(Ok(line));
                proof {
                    assert(message_views(out@)[i as int] == Ok::<Seq<u8>, ScanError>(line@));
                    let target = byte_views(lines@).subrange(0, i + 1).map_values(
                        |l: Seq<u8>| Ok::<Seq<u8>, ScanError>(l),
                    );
                    let before = byte_views(lines@).subrange(0, i as int).map_values(
                        |l: Seq<u8>| Ok::<Seq<u8>, ScanError>(l),
                    );
                    assert forall|j: int| 0 <= j < i implies message_views(out@)[j] == target[j] by {
                        assert(out@[j] == prev[j]);
                        assert(message_views(prev)[j] == before[j]);
                    }
                    assert(message_views(out@) =~= target);
                }
                i = i + 1;
            }
            proof {
                assert(byte_views(lines@).subrange(0, lines@.len() as int) == byte_views(lines@));
                lemma_lines_nonempty(buf@);
                assert(message_views(out@)[0] == message_view(out@[0]));
            }
            (out, true)
        },
    }
}

/// The reading of one listing page: its selected keys are fetched one after
/// another in listing order, and the messages made so far are exactly those of
/// the objects fetched so far, in that order.
pub struct PageScan {
    keys: Vec<String>,
    next: usize,
    fetched: Ghost<Seq<FetchOutcome>>,
    made: Ghost<Seq<Result<Seq<u8>, ScanError>>>,
}

impl PageScan {
    /// The keys of the page, in listing order.
    pub closed spec fn spec_keys(&self) -> Seq<Seq<char>> {
        string_views(self.keys@)
    }

    /// How many of the keys have been fetched.
    pub closed spec fn spec_next(&self) -> int {
        self.next as int
    }

    /// What fetching each of the keys fetched so far came to, in order.
    pub closed spec fn spec_fetched(&self) -> Seq<FetchOutcome> {
        self.fetched@
    }

    /// The messages made so far, in order.
    pub closed spec fn spec_made(&self) -> Seq<Result<Seq<u8>, ScanError>> {
        self.made@
    }

    pub open spec fn wf(&self) -> bool {
        &&& 0 <= self.spec_next() <= self.spec_keys().len()
        &&& self.spec_fetched().len() == self.spec_next()
        &&& self.spec_made() == scan_output(self.spec_fetched())
    }

    /// Starts reading a page whose selected keys are `keys`.
    pub fn new(keys: Vec<String>) -> (r: PageScan)
        ensures
            r.wf(),
            r.spec_keys() == string_views(keys@),
            r.spec_next() == 0,
    {
        PageScan {
            keys,
            next: 0,
            fetched: Ghost(Seq::empty()),
            made: Ghost(Seq::empty()),
        }
    }

    /// The key to fetch next, or none once every key of the page is fetched.
    pub fn next_key(&self) -> (r: Option<String>)
        requires
            self.wf(),
        ensures
            r is Some <==> self.spec_next() < self.spec_keys().len(),
            r matches Some(k) ==> k@ == self.spec_keys()[self.spec_next()],
    {
        if self.next < self.keys.len() {
            let k = self.keys[self.next].clone();
            Some(k)
        } else {
            None
        }
    }

    /// Takes what fetching the next key came to and returns its messages for
    /// the channel, with whether the reader is to be woken after them.
    pub fn on_fetched(&mut self, fetched: FetchOutcome) -> (r: (Vec<ScanMessage>, bool))
        requires
            old(self).wf(),
            old(self).spec_next() < old(self).spec_keys().len(),
        ensures
            final(self).wf(),
            final(self).spec_keys() == old(self).spec_keys(),
            final(self).spec_next() == old(self).spec_next() + 1,
            final(self).spec_fetched() == old(self).spec_fetched().push(fetched),
            final(self).spec_made() == old(self).spec_made() + message_views(r.0@),
            message_views(r.0@) == object_output(fetched),
            r.1 == object_wakes(fetched),
    {
        let ghost before = self.fetched@;
        let n = self.keys.len();
        proof {
            assert(string_views(self.keys@).len() == n);
        }
        let r = object_messages(fetched);
        proof {
            let after = before.push(fetched);
            assert(after.drop_last() == before);
            assert(after.last() == fetched);
            self.fetched = Ghost(after);
            self.made = Ghost(self.made@ + message_views(r.0@));
        }
        self.next = self.next + 1;
        r
    }
}

/// Within a page, the messages made so far hold each fetched object's messages
/// whole, after those of every key listed before it and before those of every
/// key listed after it; a key whose fetch failed left one failure there and
/// nothing else.
pub proof fn lemma_page_messages_in_order(p: &PageScan, i: int)
    requires
        p.wf(),
        0 <= i < p.spec_next(),
    ensures
        p.spec_made() == scan_output(p.spec_fetched().take(i)) + object_output(
            p.spec_fetched()[i],
        ) + scan_output(p.spec_fetched().skip(i + 1)),
        p.spec_fetched()[i] matches FetchOutcome::GetFailed(e) ==> object_output(
            p.spec_fetched()[i],
        ) == seq![Err::<Seq<u8>, ScanError>(ScanError::Get(e))],
{
    lemma_objects_in_listing_order(p.spec_fetched(), i);
}

/// Where the scan loop goes after a listing call.
#[derive(Clone, Copy, Debug, PartialEq, Eq, Structural)]
pub enum ListingStep {
    /// List the next page at once.
    Continue,
    /// Wait, then list the same page again.
    Backoff,
    /// The scan is over.
    Stop,
}

/// The scan's place in the paginated listing and its remaining retries.
#[derive(Clone, Debug)]
pub struct ListingState {
    /// Where the next listing call starts; none for the start of the bucket.
    pub continuation_token: Option<String>,
    /// How many more listing failures in a row end the scan.
    pub allowed_errors: u32,
}

/// The step after a failed listing call, with `allowed` retries left before it.
pub open spec fn failure_step(allowed: int) -> ListingStep {
    if allowed - 1 == 0 {
        ListingStep::Stop
    } else {
        ListingStep::Backoff
    }
}

/// The steps after failed listing calls in a row, from `allowed` retries left
/// until the scan stops.
pub open spec fn failure_run(allowed: int) -> Seq<ListingStep>
    decreases allowed,
{
    if allowed <= 0 {
        seq![]
    } else if failure_step(allowed) == ListingStep::Stop {
        seq![ListingStep::Stop]
    } else {
        seq![failure_step(allowed)] + failure_run(allowed - 1)
    }
}

/// Listing failures in a row end the scan: with `allowed` retries left, the
/// first `allowed - 1` failures each back off and the next one stops the scan.
pub proof fn lemma_failures_end_scan(allowed: int)
    requires
        0 < allowed <= MAX_LIST_ERRORS,
    ensures
        failure_run(allowed).len() == allowed,
        failure_run(allowed).last() == ListingStep::Stop,
        forall|i: int| 0 <= i < allowed - 1 ==> #[trigger] failure_run(allowed)[i] == ListingStep::Backoff,
    decreases allowed,
{
    if allowed > 1 {
        lemma_failures_end_scan(allowed - 1);
        let rest = failure_run(allowed - 1);
        assert(failure_run(allowed) == seq![ListingStep::Backoff] + rest);
        assert forall|i: int| 0 <= i < allowed - 1 implies #[trigger] failure_run(allowed)[i] == ListingStep::Backoff by {
            if i > 0 {
                assert(failure_run(allowed)[i] == rest[i - 1]);
            }
        }
    }
}

impl ListingState {
    pub open spec fn wf(&self) -> bool {
        0 < self.allowed_errors <= MAX_LIST_ERRORS
    }

    /// A scan that starts at the beginning of the bucket with every retry left.
    pub fn new() -> (r: ListingState)
        ensures
            r.continuation_token is None,
            r.allowed_errors == MAX_LIST_ERRORS,
            r.wf(),
    {
        ListingState { continuation_token: None, allowed_errors: MAX_LIST_ERRORS }
    }

    /// A listing call succeeded: the retries are restored, and the scan ends
    /// where the page carries no continuation token.
    pub fn on_listing_success(&mut self, next_token: Option<String>) -> (r: ListingStep)
        ensures
            final(self).allowed_errors == MAX_LIST_ERRORS,
            r == (if next_token is None {
                ListingStep::Stop
            } else {
                ListingStep::Continue
            }),
            next_token is Some ==> final(self).continuation_token == next_token,
            next_token is None ==> final(self).continuation_token == old(
                self,
            ).continuation_token,
            final(self).wf(),
    {
        self.allowed_errors = MAX_LIST_ERRORS;
        match next_token {
            Some(t) => {
                self.continuation_token = Some(t);
                ListingStep::Continue
            },
            None => ListingStep::Stop,
        }
    }

    /// A listing call failed: one retry fewer; with none left the scan ends,
    /// else the same page is listed again after a pause.
    pub fn on_listing_failure(&mut self) -> (r: ListingStep)
        requires
            old(self).wf(),
        ensures
            final(self).allowed_errors == old(self).allowed_errors - 1,
            final(self).continuation_token == old(self).continuation_token,
            r == failure_step(old(self).allowed_errors as int),
            r != ListingStep::Stop ==> final(self).wf(),
    {
        self.allowed_errors = self.allowed_errors - 1;
        if self.allowed_errors == 0 {
            ListingStep::Stop
        } else {
            ListingStep::Backoff
        }
    }
}

} // verus!
