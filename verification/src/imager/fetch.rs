//! Downloads that are checked against a pinned SHA-256 and cached under it.
//!
//! A cached file is hashed again before it is trusted: one that does not match
//! its pin is dropped and downloaded anew. A run turns each outcome of work on
//! files and the network into the next thing to be done.

use crate::imager::codec::{hex_encode, sha256};
use crate::imager::Error;
use crate::paths::join;
use crate::text::{chars_of, joined, same};
use vstd::prelude::*;
use vstd::string::*;

verus! {

/// Gets what is at a URL.
pub trait Fetch {
    /// The bytes at `url`, or why they could not be had.
    fn get(&self, url: &str) -> Result<Vec<u8>, Error>;
}

/// What is to be done next.
#[derive(Debug)]
pub enum Action {
    /// Create the cache directory and those above it.
    MakeDir { path: String },
    /// Read the cached file, if it is there.
    LookUp { path: String },
    /// Remove a cached file.
    Remove { path: String },
    /// Download.
    Download { url: String },
    /// Write a file.
    Write { path: String, data: Vec<u8> },
    /// Move a file.
    Move { from: String, to: String },
    /// The file at `path` is what was asked for.
    Done { path: String },
    /// The run has failed.
    Fail { error: Error },
}

/// What an action says.
#[verifier::ext_equal]
pub enum ActionView {
    MakeDir { path: Seq<char> },
    LookUp { path: Seq<char> },
    Remove { path: Seq<char> },
    Download { url: Seq<char> },
    Write { path: Seq<char>, data: Seq<u8> },
    Move { from: Seq<char>, to: Seq<char> },
    Done { path: Seq<char> },
    Fail { message: Seq<char> },
}

impl View for Action {
    type V = ActionView;

    open spec fn view(&self) -> ActionView {
        match *self {
            Action::MakeDir { path } => ActionView::MakeDir { path: path@ },
            Action::LookUp { path } => ActionView::LookUp { path: path@ },
            Action::Remove { path } => ActionView::Remove { path: path@ },
            Action::Download { url } => ActionView::Download { url: url@ },
            Action::Write { path, data } => ActionView::Write { path: path@, data: data@ },
            Action::Move { from, to } => ActionView::Move { from: from@, to: to@ },
            Action::Done { path } => ActionView::Done { path: path@ },
            Action::Fail { error } => ActionView::Fail { message: error.message@ },
        }
    }
}

/// What came of an action.
#[derive(Debug)]
pub enum Event {
    /// It is done.
    Finished,
    /// There is no cached file.
    Absent,
    /// What was read or downloaded.
    Got { data: Vec<u8> },
    /// It has failed, for this reason.
    Failed { reason: String },
}

/// Which action a run waits for.
#[derive(Clone, Copy, Debug, PartialEq, Eq, Structural)]
pub enum Stage {
    MakingDir,
    LookingUp,
    Removing,
    Downloading,
    Writing,
    Moving,
    Over,
}

/// What a run knows: what is fetched, which action it waits for, and what it
/// has given to be written.
#[verifier::ext_equal]
pub struct RunView {
    pub url: Seq<char>,
    pub pin: Seq<char>,
    pub cache_dir: Seq<char>,
    pub stage: Stage,
    pub body: Seq<u8>,
}

/// A digit of a number in hexadecimal, in lower case.
pub open spec fn is_hex_digit(c: char) -> bool {
    '0' <= c <= '9' || 'a' <= c <= 'f'
}

/// Whether a pin is well formed: 64 hexadecimal digits in lower case.
pub open spec fn is_pin(pin: Seq<char>) -> bool {
    &&& pin.len() == 64
    &&& forall|i: int| 0 <= i < pin.len() ==> is_hex_digit(#[trigger] pin[i])
}

/// The pin of `data`: its SHA-256 in hexadecimal.
pub open spec fn pin_of(data: Seq<u8>) -> Seq<char> {
    crate::block::fsprobe::hex_bytes(crate::imager::codec::sha256_of(data))
}

/// Where the file with `pin` is cached.
pub open spec fn cached(v: RunView) -> Seq<char> {
    crate::paths::below(v.cache_dir, v.pin)
}

/// Where a download is written before it is moved into place.
pub open spec fn temporary(v: RunView) -> Seq<char> {
    crate::paths::below(v.cache_dir, "."@ + v.pin + ".tmp"@)
}

/// What is shown for a pin that is not well formed.
pub open spec fn invalid_message(url: Seq<char>) -> Seq<char> {
    "invalid sha256 pin for "@ + url + ": must be 64 lowercase hex chars"@
}

/// What is shown for a download that does not match its pin.
pub open spec fn mismatch_message(
    url: Seq<char>,
    pin: Seq<char>,
    actual: Seq<char>,
) -> Seq<char> {
    "sha256 mismatch for "@ + url + ": expected "@ + pin + ", got "@ + actual
}

/// The run `v` at another stage.
pub open spec fn at(v: RunView, stage: Stage) -> RunView {
    RunView { stage, ..v }
}

/// The end of a run that has failed.
pub open spec fn failed(v: RunView, message: Seq<char>) -> (RunView, ActionView) {
    (at(v, Stage::Over), ActionView::Fail { message })
}

/// Whether `e` can be the outcome of the action that is waited for.
pub open spec fn can_follow(stage: Stage, e: Event) -> bool {
    match e {
        Event::Finished => stage is MakingDir || stage is Removing || stage is Writing
            || stage is Moving,
        Event::Absent => stage is LookingUp,
        Event::Got { .. } => stage is LookingUp || stage is Downloading,
        Event::Failed { .. } => !(stage is Over),
    }
}

/// What is shown for an action that has failed for `reason`.
pub open spec fn failure_message(v: RunView, reason: Seq<char>) -> Seq<char> {
    match v.stage {
        Stage::MakingDir => "creating cache dir "@ + v.cache_dir,
        Stage::LookingUp => "reading cached artifact "@ + cached(v),
        Stage::Removing => "removing corrupt cache entry "@ + cached(v),
        Stage::Downloading => reason,
        Stage::Writing => "writing artifact to "@ + temporary(v),
        _ => "moving artifact into place at "@ + cached(v),
    }
}

/// What follows on `e`, where the pin of data that was got is `actual`.
pub open spec fn next(v: RunView, e: Event, actual: Seq<char>) -> (RunView, ActionView) {
    match e {
        Event::Failed { reason } => failed(v, failure_message(v, reason@)),
        Event::Absent => (at(v, Stage::Downloading), ActionView::Download { url: v.url }),
        Event::Got { data } => if v.stage is LookingUp {
            if actual == v.pin {
                (at(v, Stage::Over), ActionView::Done { path: cached(v) })
            } else {
                (at(v, Stage::Removing), ActionView::Remove { path: cached(v) })
            }
        } else if actual == v.pin {
            (
                RunView { body: data@, ..at(v, Stage::Writing) },
                ActionView::Write { path: temporary(v), data: data@ },
            )
        } else {
            failed(v, mismatch_message(v.url, v.pin, actual))
        },
        Event::Finished => match v.stage {
            Stage::MakingDir => (at(v, Stage::LookingUp), ActionView::LookUp { path: cached(v) }),
            Stage::Removing => (at(v, Stage::Downloading), ActionView::Download { url: v.url }),
            Stage::Writing => (
                at(v, Stage::Moving),
                ActionView::Move { from: temporary(v), to: cached(v) },
            ),
            _ => (at(v, Stage::Over), ActionView::Done { path: cached(v) }),
        },
    }
}

/// The pin of the data that came with `e`.
pub open spec fn actual_pin(e: Event) -> Seq<char> {
    match e {
        Event::Got { data } => pin_of(data@),
        _ => Seq::empty(),
    }
}

/// The start of a run, and what is to be done first. A pin that is not well
/// formed ends it at once.
pub open spec fn started(
    url: Seq<char>,
    pin: Seq<char>,
    cache_dir: Seq<char>,
) -> (RunView, ActionView) {
    let v = RunView { url, pin, cache_dir, stage: Stage::MakingDir, body: Seq::empty() };
    if is_pin(pin) {
        (v, ActionView::MakeDir { path: cache_dir })
    } else {
        failed(v, invalid_message(url))
    }
}

/// Whether a pin is well formed.
pub fn valid_pin(pin: &str) -> (r: bool)
    ensures
        r == is_pin(pin@),
{
    let v = chars_of(pin);
    if v.len() != 64 {
        return false;
    }
    let mut i: usize = 0;
    while i < v.len()
        invariant
            i <= v@.len(),
            v@ == pin@,
            forall|k: int| 0 <= k < i ==> is_hex_digit(#[trigger] pin@[k]),
        decreases v@.len() - i,
    {
        let c = v[i];
        if !(('0' <= c && c <= '9') || ('a' <= c && c <= 'f')) {
            assert(!is_hex_digit(pin@[i as int]));
            return false;
        }
        i += 1;
    }
    true
}

/// Whether a download whose pin is `actual` is the one that is pinned.
pub fn check_pin(url: &str, pin: &str, actual: &str) -> (r: Result<(), Error>)
    ensures
        match r {
            Ok(_) => actual@ == pin@,
            Err(e) => actual@ != pin@ && e.message@ == mismatch_message(url@, pin@, actual@),
        },
{
    if same(actual, pin) {
        return Ok(());
    }
    let mut message = joined("sha256 mismatch for ", url);
    message.append(": expected ");
    message.append(pin);
    message.append(", got ");
    message.append(actual);
    Err(Error { message })
}

/// The pin of `data`.
pub fn digest(data: &[u8]) -> (r: String)
    ensures
        r@ == pin_of(data@),
{
    let raw = sha256(data);
    hex_encode(raw.as_slice())
}

/// A download under way.
pub struct FetchRun {
    url: String,
    pin: String,
    cache_dir: String,
    stage: Stage,
    body: Ghost<Seq<u8>>,
}

impl View for FetchRun {
    type V = RunView;

    closed spec fn view(&self) -> RunView {
        RunView {
            url: self.url@,
            pin: self.pin@,
            cache_dir: self.cache_dir@,
            stage: self.stage,
            body: self.body@,
        }
    }
}

/// Starts to fetch what is at `url`, pinned to `pin`, through the cache in
/// `cache_dir`.
pub fn fetch_verified(url: &str, pin: &str, cache_dir: &str) -> (r: (FetchRun, Action))
    ensures
        (r.0@, r.1@) == started(url@, pin@, cache_dir@),
{
    let mut run = FetchRun {
        url: url.to_owned(),
        pin: pin.to_owned(),
        cache_dir: cache_dir.to_owned(),
        stage: Stage::MakingDir,
        body: Ghost(Seq::empty()),
    };
    if valid_pin(pin) {
        let path = cache_dir.to_owned();
        (run, Action::MakeDir { path })
    } else {
        let mut message = joined("invalid sha256 pin for ", url);
        message.append(": must be 64 lowercase hex chars");
        run.stage = Stage::Over;
        (run, Action::Fail { error: Error { message } })
    }
}

impl FetchRun {
    /// Which action is waited for.
    pub fn stage(&self) -> (r: Stage)
        ensures
            r == self@.stage,
    {
        self.stage
    }

    fn cached_path(&self) -> (r: String)
        ensures
            r@ == cached(self@),
    {
        join(self.cache_dir.as_str(), self.pin.as_str())
    }

    fn temporary_path(&self) -> (r: String)
        ensures
            r@ == temporary(self@),
    {
        let mut name = joined(".", self.pin.as_str());
        name.append(".tmp");
        join(self.cache_dir.as_str(), name.as_str())
    }

    fn fail(&mut self, reason: String) -> (r: Action)
        requires
            !(old(self)@.stage is Over),
        ensures
            (final(self)@, r@) == failed(old(self)@, failure_message(old(self)@, reason@)),
    {
        let message = match self.stage {
            Stage::MakingDir => joined("creating cache dir ", self.cache_dir.as_str()),
            Stage::LookingUp => joined("reading cached artifact ", self.cached_path().as_str()),
            Stage::Removing => joined("removing corrupt cache entry ", self.cached_path().as_str()),
            Stage::Downloading => reason,
            Stage::Writing => joined("writing artifact to ", self.temporary_path().as_str()),
            _ => joined("moving artifact into place at ", self.cached_path().as_str()),
        };
        self.stage = Stage::Over;
        Action::Fail { error: Error { message } }
    }

    /// Takes the outcome of the action that was waited for, and the pin `actual`
    /// of the data that came with it; says what is to be done next.
    pub fn advance(&mut self, e: Event, actual: &str) -> (r: Action)
        requires
            can_follow(old(self)@.stage, e),
        ensures
            (final(self)@, r@) == next(old(self)@, e, actual@),
    {
        match e {
            Event::Failed { reason } => self.fail(reason),
            Event::Absent => {
                self.stage = Stage::Downloading;
                Action::Download { url: self.url.clone() }
            },
            Event::Got { data } => {
                if self.stage == Stage::LookingUp {
                    let path = self.cached_path();
                    if same(actual, self.pin.as_str()) {
                        self.stage = Stage::Over;
                        Action::Done { path }
                    } else {
                        self.stage = Stage::Removing;
                        Action::Remove { path }
                    }
                } else {
                    match check_pin(self.url.as_str(), self.pin.as_str(), actual) {
                        Ok(_) => {
                            let path = self.temporary_path();
                            self.body = Ghost(data@);
                            self.stage = Stage::Writing;
                            Action::Write { path, data }
                        },
                        Err(error) => {
                            self.stage = Stage::Over;
                            Action::Fail { error }
                        },
                    }
                }
            },
            Event::Finished => match self.stage {
                Stage::MakingDir => {
                    self.stage = Stage::LookingUp;
                    Action::LookUp { path: self.cached_path() }
                },
                Stage::Removing => {
                    self.stage = Stage::Downloading;
                    Action::Download { url: self.url.clone() }
                },
                Stage::Writing => {
                    let from = self.temporary_path();
                    let to = self.cached_path();
                    self.stage = Stage::Moving;
                    Action::Move { from, to }
                },
                _ => {
                    let path = self.cached_path();
                    self.stage = Stage::Over;
                    Action::Done { path }
                },
            },
        }
    }

    /// Takes the outcome of the action that was waited for; says what is to be
    /// done next.
    pub fn step(&mut self, e: Event) -> (r: Action)
        requires
            can_follow(old(self)@.stage, e),
        ensures
            (final(self)@, r@) == next(old(self)@, e, actual_pin(e)),
    {
        let actual = match &e {
            Event::Got { data } => digest(data.as_slice()),
            _ => String::new(),
        };
        assert(actual@ =~= actual_pin(e));
        self.advance(e, actual.as_str())
    }
}

/// What holds of every run: what it has given to be written matches the pin.
pub open spec fn is_run(v: RunView) -> bool {
    &&& is_pin(v.pin) || v.stage is Over
    &&& v.stage is Writing || v.stage is Moving ==> pin_of(v.body) == v.pin
}

/// Only what matches the pin is ever written, and what a run ends with is
/// either a cached file that was found to match the pin or the file that was
/// written.
pub proof fn only_what_matches_the_pin_is_kept(v: RunView, e: Event)
    requires
        is_run(v),
        can_follow(v.stage, e),
    ensures
        ({
            let (after, action) = next(v, e, actual_pin(e));
            &&& is_run(after)
            &&& match action {
                ActionView::Write { data, .. } => pin_of(data) == v.pin,
                ActionView::Done { path } => path == cached(v) && (actual_pin(e) == v.pin || (
                v.stage is Moving && pin_of(v.body) == v.pin)),
                _ => true,
            }
        }),
{
}

/// A run starts as a run should.
pub proof fn a_start_is_a_run(url: Seq<char>, pin: Seq<char>, cache_dir: Seq<char>)
    ensures
        is_run(started(url, pin, cache_dir).0),
{
}

/// A download that does not match its pin is a hard error, and nothing is
/// written.
pub proof fn a_mismatch_is_a_hard_error(v: RunView, data: Vec<u8>)
    requires
        v.stage is Downloading,
        pin_of(data@) != v.pin,
    ensures
        ({
            let (after, action) = next(v, Event::Got { data }, pin_of(data@));
            &&& after.stage is Over
            &&& action == ActionView::Fail {
                message: mismatch_message(v.url, v.pin, pin_of(data@)),
            }
        }),
{
}

/// What is cached and matches its pin is not downloaded again; what does not
/// match is replaced.
pub proof fn a_cached_file_is_trusted_by_its_hash_alone(v: RunView, data: Vec<u8>)
    requires
        v.stage is LookingUp,
    ensures
        ({
            let (after, action) = next(v, Event::Got { data }, pin_of(data@));
            &&& pin_of(data@) == v.pin ==> action == ActionView::Done { path: cached(v) }
            &&& pin_of(data@) != v.pin ==> action == ActionView::Remove { path: cached(v) } && next(
                after,
                Event::Finished,
                Seq::empty(),
            ).1 == ActionView::Download { url: v.url }
        }),
{
}

/// How a file is fetched that is not cached yet: the cache is made and looked
/// into, the file is downloaded from its URL, what came is written beside its
/// place and moved there, and the file in the cache is what the run ends with.
pub proof fn a_file_is_fetched_through_the_cache(
    url: Seq<char>,
    pin: Seq<char>,
    cache_dir: Seq<char>,
    data: Vec<u8>,
)
    requires
        is_pin(pin),
        pin_of(data@) == pin,
        cache_dir.len() > 0,
        cache_dir.last() != '/',
    ensures
        ({
            let place = cache_dir + "/"@ + pin;
            let beside = cache_dir + "/."@ + pin + ".tmp"@;
            let a = started(url, pin, cache_dir);
            let b = next(a.0, Event::Finished, Seq::empty());
            let c = next(b.0, Event::Absent, Seq::empty());
            let d = next(c.0, Event::Got { data }, pin_of(data@));
            let e = next(d.0, Event::Finished, Seq::empty());
            let f = next(e.0, Event::Finished, Seq::empty());
            &&& a.1 == (ActionView::MakeDir { path: cache_dir })
            &&& b.1 == (ActionView::LookUp { path: place })
            &&& c.1 == (ActionView::Download { url })
            &&& d.1 == (ActionView::Write { path: beside, data: data@ })
            &&& e.1 == (ActionView::Move { from: beside, to: place })
            &&& f.1 == (ActionView::Done { path: place })
            &&& f.0.stage is Over
            &&& place != beside
        }),
{
    reveal_strlit("/");
    reveal_strlit("/.");
    reveal_strlit(".");
    reveal_strlit(".tmp");
    assert(is_hex_digit(pin[0]));
    assert(pin[0] != '/');
    let name = "."@ + pin + ".tmp"@;
    assert(name[0] == '.');
    assert(cache_dir + "/"@ + name =~= cache_dir + "/."@ + pin + ".tmp"@);
    assert((cache_dir + "/"@ + pin).len() != (cache_dir + "/."@ + pin + ".tmp"@).len());
}

/// A pin that is not 64 hexadecimal digits in lower case is refused before
/// anything is done.
pub proof fn a_malformed_pin_is_refused(url: Seq<char>, pin: Seq<char>, cache_dir: Seq<char>)
    ensures
        pin.len() != 64 ==> started(url, pin, cache_dir).1 is Fail,
        (exists|i: int|
            0 <= i < pin.len() && !('0' <= (#[trigger] pin[i]) <= '9' || 'a' <= pin[i] <= 'f'))
            ==> started(url, pin, cache_dir).1 is Fail,
        started(url, pin, cache_dir).1 is Fail ==> started(url, pin, cache_dir).0.stage is Over,
{
    if exists|i: int|
        0 <= i < pin.len() && !('0' <= (#[trigger] pin[i]) <= '9' || 'a' <= pin[i] <= 'f') {
        let i = choose|i: int|
            0 <= i < pin.len() && !('0' <= (#[trigger] pin[i]) <= '9' || 'a' <= pin[i] <= 'f');
        assert(!is_hex_digit(pin[i]));
    }
}

/// Whatever fails, the run fails, and no file is passed off as fetched.
pub proof fn a_failure_ends_the_run(v: RunView, reason: String)
    ensures
        next(v, Event::Failed { reason }, Seq::empty()).1 is Fail,
        next(v, Event::Failed { reason }, Seq::empty()).0.stage is Over,
        v.stage is Downloading ==> next(v, Event::Failed { reason }, Seq::empty()).1
            == (ActionView::Fail { message: reason@ }),
{
}

/// A pin is the digest of what it pins, two digits to a byte: the digest can be
/// read out of it.
pub proof fn a_pin_is_the_digest(data: Seq<u8>, i: int)
    requires
        0 <= i < crate::imager::codec::sha256_of(data).len(),
    ensures
        pin_of(data).len() == 2 * crate::imager::codec::sha256_of(data).len(),
        crate::block::fsprobe::hex_value(pin_of(data)[2 * i]) * 16
            + crate::block::fsprobe::hex_value(pin_of(data)[2 * i + 1])
            == crate::imager::codec::sha256_of(data)[i],
{
    crate::block::fsprobe::every_byte_is_two_digits(crate::imager::codec::sha256_of(data), i);
}

/// Whether a character is one with which numbers are written in hexadecimal.
pub open spec fn writes_a_number(c: char) -> bool {
    exists|d: nat| d < 16 && c == #[trigger] crate::text::digit_char(d)
}

proof fn lemma_hex_digit(c: char)
    ensures
        is_hex_digit(c) <==> writes_a_number(c),
{
    if is_hex_digit(c) {
        let d: nat = if c <= '9' {
            (c as nat - 48) as nat
        } else {
            (c as nat - 87) as nat
        };
        assert(c == crate::text::digit_char(d));
    }
    if writes_a_number(c) {
        let d = choose|d: nat| d < 16 && c == #[trigger] crate::text::digit_char(d);
        assert(c == crate::text::digit_char(d));
    }
}

/// A pin is written with the digits with which numbers are written in
/// hexadecimal, and has 64 of them; anything else is no pin.
pub proof fn a_pin_is_made_of_hexadecimal_digits(pin: Seq<char>)
    ensures
        is_pin(pin) <==> pin.len() == 64 && forall|i: int|
            0 <= i < pin.len() ==> writes_a_number(#[trigger] pin[i]),
{
    assert forall|i: int| 0 <= i < pin.len() implies (is_hex_digit(#[trigger] pin[i])
        <==> writes_a_number(pin[i])) by {
        lemma_hex_digit(pin[i]);
    }
}

/// A download that does not match is reported with where it came from, what was
/// expected and what was found, in this order; a pin that is none with where it
/// was given.
pub proof fn a_refusal_names_what_was_refused(
    url: Seq<char>,
    pin: Seq<char>,
    actual: Seq<char>,
)
    ensures
        crate::text::shows(mismatch_message(url, pin, actual), url),
        crate::text::shows(mismatch_message(url, pin, actual), ": expected "@ + pin),
        crate::text::shows(mismatch_message(url, pin, actual), ", got "@ + actual),
        crate::text::shows(invalid_message(url), url),
{
    let m = mismatch_message(url, pin, actual);
    let a = "sha256 mismatch for "@;
    let none = Seq::<char>::empty();
    crate::text::lemma_shows(m, a, url, ": expected "@ + pin + ", got "@ + actual);
    crate::text::lemma_shows(m, a + url, ": expected "@ + pin, ", got "@ + actual);
    crate::text::lemma_shows(m, a + url + (": expected "@ + pin), ", got "@ + actual, none);
    crate::text::lemma_shows(
        invalid_message(url),
        "invalid sha256 pin for "@,
        url,
        ": must be 64 lowercase hex chars"@,
    );
}

/// What is shown for an action that has failed names the directory or the file
/// that it was about; for a download it is the reason that was given.
pub proof fn a_failure_names_what_failed(v: RunView, reason: Seq<char>)
    requires
        v.stage !is Over,
    ensures
        v.stage is MakingDir ==> crate::text::shows(failure_message(v, reason), v.cache_dir),
        v.stage is Downloading ==> failure_message(v, reason) == reason,
        v.stage is Writing ==> crate::text::shows(failure_message(v, reason), temporary(v)),
        v.stage is LookingUp || v.stage is Removing || v.stage is Moving ==> crate::text::shows(
            failure_message(v, reason),
            cached(v),
        ),
{
    let m = failure_message(v, reason);
    let none = Seq::<char>::empty();
    match v.stage {
        Stage::MakingDir => {
            crate::text::lemma_shows(m, "creating cache dir "@, v.cache_dir, none);
        },
        Stage::LookingUp => {
            crate::text::lemma_shows(m, "reading cached artifact "@, cached(v), none);
        },
        Stage::Removing => {
            crate::text::lemma_shows(m, "removing corrupt cache entry "@, cached(v), none);
        },
        Stage::Writing => {
            crate::text::lemma_shows(m, "writing artifact to "@, temporary(v), none);
        },
        Stage::Moving => {
            crate::text::lemma_shows(m, "moving artifact into place at "@, cached(v), none);
        },
        _ => {},
    }
}

} // verus!
