//! The HTTP front's decisions: which resource a request names, and what the
//! store answers.

use crate::hls::{playlist, segment_name, Hls};
use crate::text::{decimal, digit, padded, zeros};
use crate::lazybytes::LazyBytesStream;
use std::sync::Arc;
use std::sync::RwLock;
use vstd::prelude::*;
use vstd::string::StringExecFns;
use vstd::string::StringSliceAdditionalSpecFns;

verus! {

/// The start of a segment's path.
pub open spec fn segment_prefix() -> Seq<u8> {
    "/segment".spec_bytes()
}

/// The end of a segment's path.
pub open spec fn segment_suffix() -> Seq<u8> {
    ".ts".spec_bytes()
}

/// The playlist's path.
pub open spec fn playlist_path() -> Seq<u8> {
    "/index.m3u8".spec_bytes()
}

/// The path of the start page.
pub open spec fn root_path() -> Seq<u8> {
    "/".spec_bytes()
}

/// `text` begins with `prefix`.
pub open spec fn starts_with(text: Seq<u8>, prefix: Seq<u8>) -> bool {
    prefix.len() <= text.len() && text.subrange(0, prefix.len() as int) == prefix
}

/// `text` with every occurrence of `pattern` taken out, found from the left
/// and without overlap.
pub open spec fn without(text: Seq<u8>, pattern: Seq<u8>) -> Seq<u8>
    decreases text.len(),
{
    if text.len() == 0 || pattern.len() == 0 {
        text
    } else if starts_with(text, pattern) {
        without(text.skip(pattern.len() as int), pattern)
    } else {
        seq![text[0]] + without(text.skip(1), pattern)
    }
}

/// Why a text is not a segment index.
#[derive(Clone, Copy, Debug, PartialEq, Eq, Structural)]
pub enum IndexError {
    /// The text is empty.
    Empty,
    /// The text holds something other than decimal digits behind an optional
    /// `+`, or no digit at all.
    InvalidDigit,
    /// The number is too large for an index.
    PosOverflow,
}

pub open spec fn is_digit(byte: u8) -> bool {
    48 <= byte <= 57
}

pub open spec fn all_digits(text: Seq<u8>) -> bool {
    forall|i: int| 0 <= i < text.len() ==> is_digit(#[trigger] text[i])
}

/// The number that decimal digits stand for.
pub open spec fn number(digits: Seq<u8>) -> nat
    decreases digits.len(),
{
    if digits.len() == 0 {
        0
    } else {
        (number(digits.drop_last()) * 10 + (digits.last() - 48)) as nat
    }
}

/// The digits of an index: the text without a leading `+`.
pub open spec fn index_digits(text: Seq<u8>) -> Seq<u8> {
    if text.len() > 0 && text[0] == 43 {
        text.skip(1)
    } else {
        text
    }
}

/// The index that a text states: decimal digits, at least one, behind an
/// optional `+`, for a number that fits 64 bits.
pub open spec fn parsed(text: Seq<u8>) -> Result<u64, IndexError> {
    if text.len() == 0 {
        Err(IndexError::Empty)
    } else if index_digits(text).len() == 0 || !all_digits(index_digits(text)) {
        Err(IndexError::InvalidDigit)
    } else if number(index_digits(text)) > u64::MAX {
        Err(IndexError::PosOverflow)
    } else {
        Ok(number(index_digits(text)) as u64)
    }
}

/// What a request asks for.
#[derive(Clone, Copy, Debug, PartialEq, Eq, Structural)]
pub enum Route {
    /// The bytes of the segment with this index.
    Segment(u64),
    /// A segment, by something that is not an index.
    InvalidIndex(IndexError),
    /// The playlist.
    Playlist,
    /// The start page.
    Root,
    /// A file.
    Static,
    /// Nothing this service has: the request is not a `GET`.
    NotFound,
}

/// What a request for `path` asks for; `get` says whether its method is `GET`.
pub open spec fn route_of(get: bool, path: Seq<u8>) -> Route {
    if !get {
        Route::NotFound
    } else if starts_with(path, segment_prefix()) {
        match parsed(without(without(path, segment_prefix()), segment_suffix())) {
            Ok(index) => Route::Segment(index),
            Err(e) => Route::InvalidIndex(e),
        }
    } else if path == playlist_path() {
        Route::Playlist
    } else if path == root_path() {
        Route::Root
    } else {
        Route::Static
    }
}

/// The bytes of a text of ASCII characters.
pub open spec fn ascii(text: Seq<char>) -> Seq<u8> {
    text.map_values(|c: char| c as u8)
}

/// A text in which the first byte of `pattern` does not occur holds no
/// occurrence of `pattern`.
proof fn lemma_without_absent(text: Seq<u8>, pattern: Seq<u8>)
    requires
        pattern.len() > 0,
        forall|i: int| 0 <= i < text.len() ==> text[i] != pattern[0],
    ensures
        without(text, pattern) == text,
    decreases text.len(),
{
    if text.len() > 0 {
        if starts_with(text, pattern) {
            assert(text.subrange(0, pattern.len() as int)[0] == pattern[0]);
        }
        lemma_without_absent(text.skip(1), pattern);
        assert(seq![text[0]] + text.skip(1) =~= text);
    }
}

/// Where the first byte of `pattern` does not occur in `head`, occurrences
/// of `pattern` in `head + tail` are those in `tail`.
proof fn lemma_without_after(head: Seq<u8>, tail: Seq<u8>, pattern: Seq<u8>)
    requires
        pattern.len() > 0,
        forall|i: int| 0 <= i < head.len() ==> head[i] != pattern[0],
    ensures
        without(head + tail, pattern) == head + without(tail, pattern),
    decreases head.len(),
{
    let text = head + tail;
    if head.len() == 0 {
        assert(text =~= tail);
        assert(head + without(tail, pattern) =~= without(tail, pattern));
    } else {
        if starts_with(text, pattern) {
            assert(text.subrange(0, pattern.len() as int)[0] == pattern[0]);
        }
        assert(text.skip(1) =~= head.skip(1) + tail);
        lemma_without_after(head.skip(1), tail, pattern);
        assert(seq![text[0]] + (head.skip(1) + without(tail, pattern)) =~= head + without(
            tail,
            pattern,
        ));
    }
}

/// The digits of a number in decimal stand for that number.
proof fn lemma_number_of_decimal(n: nat)
    ensures
        all_digits(ascii(decimal(n))),
        number(ascii(decimal(n))) == n,
        ascii(decimal(n)).len() > 0,
    decreases n,
{
    let last = (n % 10) as int;
    assert(digit(last) as u8 == 48 + last);
    if n < 10 {
        assert(ascii(decimal(n)) =~= seq![digit(last) as u8]);
        assert(ascii(decimal(n)).drop_last() =~= Seq::<u8>::empty());
        assert(number(Seq::<u8>::empty()) == 0);
    } else {
        lemma_number_of_decimal(n / 10);
        let shorter = ascii(decimal(n / 10));
        assert(ascii(decimal(n)) =~= shorter.push(digit(last) as u8));
        assert(ascii(decimal(n)).drop_last() =~= shorter);
    }
}

/// Zeros in front of digits do not change the number they stand for.
proof fn lemma_number_of_padded(count: nat, digits: Seq<u8>)
    requires
        all_digits(digits),
    ensures
        all_digits(ascii(zeros(count)) + digits),
        number(ascii(zeros(count)) + digits) == number(digits),
    decreases digits.len(),
{
    let front = ascii(zeros(count));
    if digits.len() == 0 {
        assert(front + digits =~= front);
        lemma_number_of_zeros(count);
    } else {
        lemma_number_of_padded(count, digits.drop_last());
        assert((front + digits).drop_last() =~= front + digits.drop_last());
    }
}

/// Zeros stand for zero.
proof fn lemma_number_of_zeros(count: nat)
    ensures
        all_digits(ascii(zeros(count))),
        number(ascii(zeros(count))) == 0,
    decreases count,
{
    if count > 0 {
        lemma_number_of_zeros((count - 1) as nat);
        assert(ascii(zeros(count)).drop_last() =~= ascii(zeros((count - 1) as nat)));
    }
}

/// The path under which a playlist advertises a segment leads back to that
/// segment: a request for `/` and the segment's file name is a request for
/// the segment with that index.
pub proof fn lemma_advertised_path_routes(index: u64)
    ensures
        route_of(true, ascii(seq!['/'] + segment_name(index))) == Route::Segment(index),
{
    broadcast use vstd::string::is_ascii_spec_bytes;

    reveal_strlit("/segment");
    reveal_strlit("segment");
    reveal_strlit(".ts");
    let prefix = segment_prefix();
    let suffix = segment_suffix();
    assert(vstd::string::is_ascii("/segment"));
    assert(vstd::string::is_ascii(".ts"));
    assert(prefix =~= seq![47u8, 115, 101, 103, 109, 101, 110, 116]);
    assert(suffix =~= seq![46u8, 116, 115]);
    let n = index as nat;
    let figures = ascii(padded(n, 9));
    lemma_number_of_decimal(n);
    if decimal(n).len() >= 9 {
        assert(figures == ascii(decimal(n)));
    } else {
        let count = (9 - decimal(n).len()) as nat;
        lemma_number_of_padded(count, ascii(decimal(n)));
        assert(figures =~= ascii(zeros(count)) + ascii(decimal(n)));
    }
    assert(all_digits(figures) && number(figures) == n && figures.len() > 0);
    let path = ascii(seq!['/'] + segment_name(index));
    assert(path =~= prefix + (figures + suffix));
    // The prefix goes, and neither the figures nor the suffix hold another.
    assert(starts_with(path, prefix)) by {
        assert(path.subrange(0, prefix.len() as int) =~= prefix);
    }
    assert(path.skip(prefix.len() as int) =~= figures + suffix);
    assert forall|i: int| 0 <= i < (figures + suffix).len() implies (figures + suffix)[i]
        != prefix[0] by {
        if i < figures.len() {
            assert(is_digit(figures[i]));
        }
    }
    lemma_without_absent(figures + suffix, prefix);
    assert(without(path, prefix) == figures + suffix);
    // The suffix goes, and the figures hold none.
    assert forall|i: int| 0 <= i < figures.len() implies figures[i] != suffix[0] by {
        assert(is_digit(figures[i]));
    }
    lemma_without_after(figures, suffix, suffix);
    assert(starts_with(suffix, suffix)) by {
        assert(suffix.subrange(0, suffix.len() as int) =~= suffix);
    }
    assert(suffix.skip(suffix.len() as int) =~= Seq::<u8>::empty());
    assert(without(Seq::<u8>::empty(), suffix) == Seq::<u8>::empty());
    assert(without(suffix, suffix) == Seq::<u8>::empty());
    assert(figures + Seq::<u8>::empty() =~= figures);
    assert(without(figures + suffix, suffix) == figures);
    // What is left is the index.
    assert(is_digit(figures[0]));
    assert(index_digits(figures) == figures);
}

/// Whether `pattern` stands in `text` at position `at`.
fn found_at(text: &[u8], at: usize, pattern: &[u8]) -> (r: bool)
    requires
        at <= text@.len(),
    ensures
        r == starts_with(text@.skip(at as int), pattern@),
{
    if pattern.len() > text.len() - at {
        return false;
    }
    let mut i: usize = 0;
    while i < pattern.len()
        invariant
            i <= pattern@.len(),
            at + pattern@.len() <= text@.len() <= usize::MAX,
            forall|j: int| 0 <= j < i ==> text@[at + j] == pattern@[j],
        decreases pattern.len() - i,
    {
        if text[at + i] != pattern[i] {
            assert(text@.skip(at as int).subrange(0, pattern@.len() as int)[i as int]
                != pattern@[i as int]);
            return false;
        }
        i += 1;
    }
    assert(text@.skip(at as int).subrange(0, pattern@.len() as int) =~= pattern@);
    true
}

/// Whether two texts are the same.
fn same(a: &[u8], b: &[u8]) -> (r: bool)
    ensures
        r == (a@ == b@),
{
    if a.len() != b.len() {
        return false;
    }
    let r = found_at(a, 0, b);
    assert(a@.skip(0) =~= a@);
    assert(a@.subrange(0, b@.len() as int) =~= a@);
    r
}

/// `text` with every occurrence of `pattern` taken out.
fn strip(text: &[u8], pattern: &[u8]) -> (r: Vec<u8>)
    ensures
        r@ == without(text@, pattern@),
{
    let mut out: Vec<u8> = Vec::new();
    let mut i: usize = 0;
    assert(text@.skip(0) =~= text@);
    while i < text.len()
        invariant
            i <= text@.len(),
            out@ + without(text@.skip(i as int), pattern@) == without(text@, pattern@),
        decreases text.len() - i,
    {
        let ghost rest = text@.skip(i as int);
        if pattern.len() > 0 && found_at(text, i, pattern) {
            assert(rest.skip(pattern@.len() as int) =~= text@.skip(i + pattern@.len()));
            i += pattern.len();
        } else {
            assert(rest.skip(1) =~= text@.skip(i + 1));
            let ghost held = out@;
            out.push(text[i]);
            assert(out@ + without(rest.skip(1), pattern@) =~= held + without(rest, pattern@));
            i += 1;
        }
    }
    assert(out@ + without(text@.skip(i as int), pattern@) =~= out@);
    out
}

/// A number is no less than the number of any of its leading digits.
proof fn lemma_number_grows(digits: Seq<u8>, taken: int)
    requires
        all_digits(digits),
        0 <= taken <= digits.len(),
    ensures
        number(digits.subrange(0, taken)) <= number(digits),
    decreases digits.len() - taken,
{
    if taken < digits.len() {
        let longer = digits.subrange(0, taken + 1);
        assert(longer.drop_last() =~= digits.subrange(0, taken));
        assert(is_digit(digits[taken]));
        lemma_number_grows(digits, taken + 1);
    } else {
        assert(digits.subrange(0, taken) =~= digits);
    }
}

/// Reads a segment index.
pub fn parse_index(text: &[u8]) -> (r: Result<u64, IndexError>)
    ensures
        r == parsed(text@),
{
    if text.len() == 0 {
        return Err(IndexError::Empty);
    }
    let start: usize = if text[0] == 43 {
        1
    } else {
        0
    };
    let ghost digits = index_digits(text@);
    assert(digits =~= text@.skip(start as int));
    if start == text.len() {
        return Err(IndexError::InvalidDigit);
    }
    let mut i: usize = start;
    while i < text.len()
        invariant
            start <= i <= text@.len(),
            digits == text@.skip(start as int),
            digits == index_digits(text@),
            start < text@.len(),
            all_digits(digits.subrange(0, i - start)),
        decreases text.len() - i,
    {
        assert(digits[i - start] == text@[i as int]);
        if text[i] < 48 || text[i] > 57 {
            assert(!is_digit(digits[i - start]));
            return Err(IndexError::InvalidDigit);
        }
        assert(forall|j: int|
            0 <= j < i + 1 - start ==> digits.subrange(0, i + 1 - start)[j] == digits[j]);
        assert forall|j: int| 0 <= j < i + 1 - start implies is_digit(
            #[trigger] digits.subrange(0, i + 1 - start)[j],
        ) by {
            if j < i - start {
                assert(digits.subrange(0, i - start)[j] == digits[j]);
            }
        }
        i += 1;
    }
    assert(digits.subrange(0, i - start) =~= digits);
    let mut value: u64 = 0;
    let mut k: usize = start;
    while k < text.len()
        invariant
            start <= k <= text@.len(),
            digits == text@.skip(start as int),
            digits == index_digits(text@),
            start < text@.len(),
            all_digits(digits),
            value == number(digits.subrange(0, k - start)),
        decreases text.len() - k,
    {
        assert(digits[k - start] == text@[k as int]);
        assert(is_digit(digits[k - start]));
        let d: u64 = (text[k] - 48) as u64;
        assert(digits.subrange(0, k + 1 - start).drop_last() =~= digits.subrange(0, k - start));
        proof {
            lemma_number_grows(digits, k + 1 - start);
        }
        if value > (u64::MAX - d) / 10 {
            return Err(IndexError::PosOverflow);
        }
        value = value * 10 + d;
        k += 1;
    }
    assert(digits.subrange(0, k - start) =~= digits);
    Ok(value)
}

/// Decides what a request for `path` asks for; `get` says whether its
/// method is `GET`.
pub fn route(get: bool, path: &str) -> (r: Route)
    ensures
        r == route_of(get, path.spec_bytes()),
{
    if !get {
        return Route::NotFound;
    }
    let bytes = path.as_bytes();
    if found_at(bytes, 0, "/segment".as_bytes()) {
        assert(bytes@.skip(0) =~= bytes@);
        let inner = strip(bytes, "/segment".as_bytes());
        let index = strip(inner.as_slice(), ".ts".as_bytes());
        match parse_index(index.as_slice()) {
            Ok(index) => Route::Segment(index),
            Err(e) => Route::InvalidIndex(e),
        }
    } else {
        assert(bytes@.skip(0) =~= bytes@);
        if same(bytes, "/index.m3u8".as_bytes()) {
            Route::Playlist
        } else if same(bytes, "/".as_bytes()) {
            Route::Root
        } else {
            Route::Static
        }
    }
}

/// The content type of a playlist.
pub const PLAYLIST_CONTENT_TYPE: &'static str = "application/vnd.apple.mpegurl";

/// Where a request for the start page is sent.
pub const PLAYER_LOCATION: &'static str =
    "/index.html?src=index.m3u8&enableStreaming=true&autoRecoverError=true&enableWorker=true&dumpfMP4=false&levelCapping=-1&defaultAudioCodec=undefined&widevineLicenseURL=";

impl IndexError {
    /// What is wrong, in words.
    pub open spec fn describes(self) -> Seq<char> {
        match self {
            IndexError::Empty => "cannot parse integer from empty string"@,
            IndexError::InvalidDigit => "invalid digit found in string"@,
            IndexError::PosOverflow => "number too large to fit in target type"@,
        }
    }

    /// What is wrong, in words.
    pub fn description(&self) -> (r: &'static str)
        ensures
            r@ == self.describes(),
    {
        match self {
            IndexError::Empty => "cannot parse integer from empty string",
            IndexError::InvalidDigit => "invalid digit found in string",
            IndexError::PosOverflow => "number too large to fit in target type",
        }
    }

    /// The message sent for a request that names a segment by this.
    pub fn message(&self) -> (r: String)
        ensures
            r@ == "Invalid segment index: "@ + self.describes(),
    {
        let mut body = String::from_str("Invalid segment index: ");
        body.append(self.description());
        body
    }
}

/// The number of bytes that a text takes up in UTF-8.
pub open spec fn byte_len(text: Seq<char>) -> nat {
    vstd::utf8::encode_utf8(text).len()
}

/// An answer to a request.
pub enum Reply {
    /// The segment's bytes, streamed from the start.
    Segment(LazyBytesStream),
    /// The playlist's text.
    Playlist(String),
    /// The way to the player page.
    Redirect,
    /// The request names a segment by something that is not an index.
    InvalidIndex(IndexError),
    /// A file, which the caller looks up.
    Static,
    /// There is no such resource.
    NotFound,
}

impl Reply {
    /// Whether this is the answer of `store` to a request for `route`.
    pub open spec fn answers(self, store: crate::hls::Store, route: Route) -> bool {
        match route {
            Route::Segment(index) => match store.find(index) {
                Some(content) => self matches Reply::Segment(stream) && stream.segment() == content
                    && stream.processed() == 0,
                None => self is NotFound,
            },
            Route::InvalidIndex(e) => self == Reply::InvalidIndex(e),
            Route::Playlist => self matches Reply::Playlist(text) && text@ == playlist(store),
            Route::Root => self is Redirect,
            Route::Static => self is Static,
            Route::NotFound => self is NotFound,
        }
    }

    /// The status code of the answer; `None` for a file, where it depends on
    /// whether the file can be read.
    pub fn status(&self) -> (r: Option<u16>)
        ensures
            r == match *self {
                Reply::Segment(_) => Some(200u16),
                Reply::Playlist(_) => Some(200u16),
                Reply::Redirect => Some(303u16),
                Reply::InvalidIndex(_) => Some(400u16),
                Reply::Static => None,
                Reply::NotFound => Some(404u16),
            },
    {
        match self {
            Reply::Segment(_) => Some(200),
            Reply::Playlist(_) => Some(200),
            Reply::Redirect => Some(303),
            Reply::InvalidIndex(_) => Some(400),
            Reply::Static => None,
            Reply::NotFound => Some(404),
        }
    }

    /// The content length that the answer announces, if it announces one:
    /// the size of the playlist, or of the message for an invalid index.
    pub fn content_length(&self) -> (r: Option<usize>)
        ensures
            r == match *self {
                Reply::Playlist(text) => Some(byte_len(text@) as usize),
                Reply::InvalidIndex(e) => Some(
                    byte_len("Invalid segment index: "@ + e.describes()) as usize,
                ),
                _ => None::<usize>,
            },
    {
        match self {
            Reply::Playlist(text) => Some(text.as_str().len()),
            Reply::InvalidIndex(e) => Some(e.message().as_str().len()),
            _ => None,
        }
    }
}

pub struct HlsService {
    hls: Arc<RwLock<Hls>>,
}

impl HlsService {
    /// The store that is served.
    pub closed spec fn store(&self) -> Arc<RwLock<Hls>> {
        self.hls
    }

    /// A service for the given store.
    pub fn new(hls: Arc<RwLock<Hls>>) -> (r: HlsService)
        ensures
            r.store() == hls,
    {
        HlsService { hls }
    }

    /// The store that is served.
    pub fn hls(&self) -> (r: &Arc<RwLock<Hls>>)
        ensures
            *r == self.store(),
    {
        &self.hls
    }

    /// Answers a request for `path` from the store as it stands; `get` says
    /// whether the request's method is `GET`.
    pub fn answer(hls: &Hls, get: bool, path: &str) -> (r: Reply)
        ensures
            r.answers(hls@, route_of(get, path.spec_bytes())),
    {
        match route(get, path) {
            Route::Segment(index) => match hls.read_segment(index) {
                Some(segment) => Reply::Segment(LazyBytesStream::new(segment)),
                None => Reply::NotFound,
            },
            Route::InvalidIndex(e) => Reply::InvalidIndex(e),
            Route::Playlist => Reply::Playlist(hls.generate_playlist()),
            Route::Root => Reply::Redirect,
            Route::Static => Reply::Static,
            Route::NotFound => Reply::NotFound,
        }
    }
}

} // verus!
