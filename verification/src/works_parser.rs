//! The streaming parser of the works feed: a line-oriented, lightly
//! quoted key-value stream. Records are delimited by lone `{` / `}`
//! lines; a feed may open with a `himmessages=[` header and closes with
//! `]` or `];`. Each data line is split on its first `:`; keys and
//! values are stripped of a leading comma, a leading quote and a
//! trailing quote; unknown keys are ignored.
use vstd::prelude::*;

verus! {

use vstd::string::StringExecFns;
use crate::stop::{spec_lookup_stop, stop_to_delaymap, StopModel, StopsTable};
use crate::strings::{
    ends_with_char,
    spec_key_value,
    spec_lines,
    split_key_value,
    starts_with_char,
    str_eq,
    str_lines,
};
use crate::works::{empty_works, DelayMapURL, DelayMapWorks, UrlModel, WorksModel};

/// Why a works feed could not be parsed further, with a human-readable
/// message.
#[derive(Debug)]
pub struct DelayMapWorksParserError {
    message: String,
}

impl View for DelayMapWorksParserError {
    type V = Seq<char>;

    closed spec fn view(&self) -> Seq<char> {
        self.message@
    }
}

impl DelayMapWorksParserError {
    /// The error's message.
    pub fn message(&self) -> (r: &String)
        ensures
            r@ == self@,
    {
        &self.message
    }
}

/// The parser: the request's language, the feed's lines, and how far
/// they have been consumed.
pub struct DelayMapWorksParser {
    language: String,
    lines: Vec<String>,
    line_i: usize,
}

/// Abstract value of a `DelayMapWorksParser`.
#[verifier::ext_equal]
pub struct ParserModel {
    pub language: Seq<char>,
    pub lines: Seq<Seq<char>>,
    pub line_i: int,
}

impl View for DelayMapWorksParser {
    type V = ParserModel;

    closed spec fn view(&self) -> ParserModel {
        ParserModel {
            language: self.language@,
            lines: self.lines.deep_view(),
            line_i: self.line_i as int,
        }
    }
}

/// The next line and the position after it: the line at `i` when there
/// is one, the position unchanged otherwise.
pub open spec fn spec_next(lines: Seq<Seq<char>>, i: int) -> (Option<Seq<char>>, int) {
    if 0 <= i < lines.len() {
        (Some(lines[i]), i + 1)
    } else {
        (None, i)
    }
}

/// The link a freshly opened URL record starts from.
pub open spec fn default_url() -> UrlModel {
    UrlModel { url: "#"@, label: "Link"@ }
}

/// One line of the URL sub-list applied to its state: a line ending in
/// `{` opens a fresh record, a line starting with `}` commits the
/// current one, and a data line may set its `url` or `label`.
pub open spec fn apply_url_line(urls: Seq<UrlModel>, curr: UrlModel, l: Seq<char>) -> (
    Seq<UrlModel>,
    UrlModel,
) {
    if l.len() > 0 && l.last() == '{' {
        (urls, default_url())
    } else if l.len() > 0 && l[0] == '}' {
        (urls.push(curr), curr)
    } else {
        match spec_key_value(l) {
            None => (urls, curr),
            Some(kv) => {
                if kv.0 == "url"@ {
                    (urls, UrlModel { url: kv.1, label: curr.label })
                } else if kv.0 == "label"@ {
                    (urls, UrlModel { url: curr.url, label: kv.1 })
                } else {
                    (urls, curr)
                }
            },
        }
    }
}

/// How a URL sub-parse ends: with the committed links and the position
/// after the closing `]`, or exhausted at `int` before one was seen.
pub enum UrlOutcome {
    Done(Seq<UrlModel>, int),
    Exhausted(int),
}

/// The URL sub-parse: starting from state `(urls, curr)` with `urlline`
/// the line last read, consume lines until one equals `]`.
pub open spec fn spec_parse_urllist(
    lines: Seq<Seq<char>>,
    i: int,
    urls: Seq<UrlModel>,
    curr: UrlModel,
    urlline: Seq<char>,
) -> UrlOutcome
    decreases lines.len() - i,
{
    if urlline == "]"@ {
        UrlOutcome::Done(urls, i)
    } else if i < 0 || i >= lines.len() {
        UrlOutcome::Exhausted(i)
    } else {
        let l = lines[i];
        let next = apply_url_line(urls, curr, l);
        spec_parse_urllist(lines, i + 1, next.0, next.1, l)
    }
}

/// A URL sub-parse never moves backwards, and never runs past the
/// stream once it has read a line.
pub proof fn lemma_urllist_monotonic(
    lines: Seq<Seq<char>>,
    i: int,
    urls: Seq<UrlModel>,
    curr: UrlModel,
    urlline: Seq<char>,
)
    ensures
        match spec_parse_urllist(lines, i, urls, curr, urlline) {
            UrlOutcome::Done(_, i2) => i2 >= i && (i2 == i || i2 <= lines.len()),
            UrlOutcome::Exhausted(i2) => i2 >= i,
        },
    decreases lines.len() - i,
{
    if urlline == "]"@ {
    } else if i < 0 || i >= lines.len() {
    } else {
        let l = lines[i];
        let next = apply_url_line(urls, curr, l);
        lemma_urllist_monotonic(lines, i + 1, next.0, next.1, l);
    }
}

/// A line carrying the `urllist` key holds a `:` and so is not `]`.
pub proof fn lemma_urllist_line_not_closing(l: Seq<char>)
    requires
        is_urllist_line(l),
    ensures
        l != "]"@,
{
    if l == "]"@ {
        reveal_strlit("]");
        crate::strings::lemma_find_char_from(l, ':', 0);
    }
}

/// One data line applied to a record under construction. The `urllist`
/// key is not handled here: it consumes further lines and is treated by
/// the record loop itself.
pub open spec fn apply_data_line(rec: WorksModel, l: Seq<char>, stops: Seq<StopModel>) -> WorksModel {
    match spec_key_value(l) {
        None => rec,
        Some(kv) => {
            let k = kv.0;
            let v = kv.1;
            if k == "id"@ {
                WorksModel { id: v, ..rec }
            } else if k == "caption"@ {
                WorksModel { name: v, ..rec }
            } else if k == "message"@ {
                WorksModel { message: v, ..rec }
            } else if k == "pubstartdate_0"@ {
                WorksModel { start_date: v, ..rec }
            } else if k == "pubstarttime_0"@ {
                WorksModel { start_time: v, ..rec }
            } else if k == "pubenddate_0"@ {
                WorksModel { end_date: v, ..rec }
            } else if k == "pubendtime_0"@ {
                WorksModel { end_time: v, ..rec }
            } else if k == "impactstation_extId"@ {
                WorksModel {
                    impacted_station: match spec_lookup_stop(stops, v) {
                        Some(s) => Some(stop_to_delaymap(s)),
                        None => None,
                    },
                    ..rec
                }
            } else {
                rec
            }
        },
    }
}

/// Whether `l` is a data line carrying the `urllist` key.
pub open spec fn is_urllist_line(l: Seq<char>) -> bool {
    match spec_key_value(l) {
        None => false,
        Some(kv) => kv.0 == "urllist"@,
    }
}

/// How assembling one record ends: with the record and the position
/// after its closing `}`; or with the stream exhausted before the
/// record completed, which yields no record; or exhausted inside a URL
/// sub-list, which is an error.
pub enum RecordOutcome {
    Done(WorksModel, int),
    Incomplete(int),
    Truncated(int),
}

/// The record loop: starting from `rec` with `maybe_line` the line last
/// read, apply data lines (and URL sub-parses) until a lone `}` or the
/// stream's end.
pub open spec fn spec_record_loop(
    lines: Seq<Seq<char>>,
    i: int,
    rec: WorksModel,
    maybe_line: Option<Seq<char>>,
    stops: Seq<StopModel>,
) -> RecordOutcome
    decreases lines.len() - i, (if maybe_line is Some { 1int } else { 0int }),
    via spec_record_loop_decreases
{
    match maybe_line {
        None => RecordOutcome::Incomplete(i),
        Some(l) => {
            if l == "}"@ {
                RecordOutcome::Done(rec, i)
            } else if is_urllist_line(l) {
                match spec_parse_urllist(lines, i, Seq::empty(), default_url(), l) {
                    UrlOutcome::Exhausted(i2) => RecordOutcome::Truncated(i2),
                    UrlOutcome::Done(urls, i2) => {
                        let rec2 = WorksModel { urls, ..rec };
                        let fetched = spec_next(lines, i2);
                        spec_record_loop(lines, fetched.1, rec2, fetched.0, stops)
                    },
                }
            } else {
                let rec2 = apply_data_line(rec, l, stops);
                let fetched = spec_next(lines, i);
                spec_record_loop(lines, fetched.1, rec2, fetched.0, stops)
            }
        },
    }
}

#[via_fn]
proof fn spec_record_loop_decreases(
    lines: Seq<Seq<char>>,
    i: int,
    rec: WorksModel,
    maybe_line: Option<Seq<char>>,
    stops: Seq<StopModel>,
) {
    if maybe_line is Some {
        let l = maybe_line.unwrap();
        if l != "}"@ && is_urllist_line(l) {
            lemma_urllist_line_not_closing(l);
            lemma_urllist_advances(lines, i, Seq::empty(), default_url(), l);
        }
    }
}

/// A URL sub-parse whose last-read line is not yet `]` consumes at
/// least one line before finishing.
pub proof fn lemma_urllist_advances(
    lines: Seq<Seq<char>>,
    i: int,
    urls: Seq<UrlModel>,
    curr: UrlModel,
    urlline: Seq<char>,
)
    requires
        urlline != "]"@,
    ensures
        match spec_parse_urllist(lines, i, urls, curr, urlline) {
            UrlOutcome::Done(_, i2) => i + 1 <= i2 <= lines.len(),
            UrlOutcome::Exhausted(i2) => i2 >= i,
        },
{
    if 0 <= i < lines.len() {
        let l = lines[i];
        let next = apply_url_line(urls, curr, l);
        lemma_urllist_monotonic(lines, i + 1, next.0, next.1, l);
    }
}

/// A record loop never moves backwards, and never runs past the stream
/// once it has read a line.
pub proof fn lemma_record_loop_monotonic(
    lines: Seq<Seq<char>>,
    i: int,
    rec: WorksModel,
    maybe_line: Option<Seq<char>>,
    stops: Seq<StopModel>,
)
    ensures
        match spec_record_loop(lines, i, rec, maybe_line, stops) {
            RecordOutcome::Done(_, i2) => i2 >= i && (i2 == i || i2 <= lines.len()),
            RecordOutcome::Incomplete(i2) => i2 >= i,
            RecordOutcome::Truncated(i2) => i2 >= i,
        },
    decreases lines.len() - i, (if maybe_line is Some { 1int } else { 0int }),
{
    match maybe_line {
        None => {},
        Some(l) => {
            if l == "}"@ {
            } else if is_urllist_line(l) {
                lemma_urllist_line_not_closing(l);
                lemma_urllist_advances(lines, i, Seq::empty(), default_url(), l);
                match spec_parse_urllist(lines, i, Seq::empty(), default_url(), l) {
                    UrlOutcome::Exhausted(_) => {},
                    UrlOutcome::Done(urls, i2) => {
                        let rec2 = WorksModel { urls, ..rec };
                        let fetched = spec_next(lines, i2);
                        lemma_record_loop_monotonic(lines, fetched.1, rec2, fetched.0, stops);
                    },
                }
            } else {
                let rec2 = apply_data_line(rec, l, stops);
                let fetched = spec_next(lines, i);
                lemma_record_loop_monotonic(lines, fetched.1, rec2, fetched.0, stops);
            }
        },
    }
}

/// How one `parse_next` call ends.
pub enum ParseOutcome {
    /// The stream's closing `]` or `];` was read, or the stream was
    /// exhausted before a record completed: no more records.
    NoMore,
    /// One record was assembled.
    Record(WorksModel),
    /// A record opened with something other than `{` or `,{`.
    BadFirstLine(Seq<char>),
    /// The stream ended inside a URL sub-list.
    Truncated,
}

/// The message of a `BadFirstLine` error, naming the offending line.
pub open spec fn bad_first_message(l: Seq<char>) -> Seq<char> {
    "Invalid first line Some(\""@ + l + "\")"@
}

/// The message of a `Truncated` error.
pub open spec fn truncated_message() -> Seq<char> {
    "Unexpected end of url list"@
}

/// The path segment of the upstream works URL for a request language:
/// Dutch, French and German have their own feeds, everything else falls
/// back to English.
pub open spec fn spec_language_path(language: Option<Seq<char>>) -> Seq<char> {
    match language {
        Some(l) => if l == "nl"@ {
            "nny"@
        } else if l == "en"@ {
            "eny"@
        } else if l == "fr"@ {
            "fny"@
        } else if l == "de"@ {
            "dny"@
        } else {
            "eny"@
        },
        None => "eny"@,
    }
}

/// Executable form of `spec_language_path`.
pub fn language_path(language: Option<&str>) -> (r: &'static str)
    ensures
        r@ == spec_language_path(match language {
            Some(l) => Some(l@),
            None => None,
        }),
{
    match language {
        Some(l) => {
            if str_eq(l, "nl") {
                "nny"
            } else if str_eq(l, "en") {
                "eny"
            } else if str_eq(l, "fr") {
                "fny"
            } else if str_eq(l, "de") {
                "dny"
            } else {
                "eny"
            }
        },
        None => "eny",
    }
}

/// One whole `parse_next` call: skip a `himmessages` header, recognise
/// the end of the stream, demand a record's opening line, then run the
/// record loop. Returns the outcome and the position after the call.
/// Stream exhaustion before a record completes is not an error: it
/// yields the no-more-records outcome.
pub open spec fn spec_parse_next(lines: Seq<Seq<char>>, i0: int, stops: Seq<StopModel>) -> (
    ParseOutcome,
    int,
) {
    let first = spec_next(lines, i0);
    let after_header = if first.0 == Some("himmessages=["@) || first.0 == Some(
        "\"himmessages\"=["@,
    ) {
        spec_next(lines, first.1)
    } else {
        first
    };
    let l = after_header.0;
    let i2 = after_header.1;
    if l is None || l == Some("]"@) || l == Some("];"@) {
        (ParseOutcome::NoMore, i2)
    } else if l != Some("{"@) && l != Some(",{"@) {
        (ParseOutcome::BadFirstLine(l.unwrap()), i2)
    } else {
        match spec_record_loop(lines, i2, empty_works(), l, stops) {
            RecordOutcome::Done(rec, i3) => (ParseOutcome::Record(rec), i3),
            RecordOutcome::Incomplete(i3) => (ParseOutcome::NoMore, i3),
            RecordOutcome::Truncated(i3) => (ParseOutcome::Truncated, i3),
        }
    }
}

impl DelayMapWorksParser {
    /// A parser over `content`'s lines, answering in `language`
    /// (defaulting to English).
    pub fn new(language: Option<String>, content: String) -> (r: Self)
        ensures
            r@.language == match language {
                Some(l) => l@,
                None => "en"@,
            },
            r@.lines == spec_lines(content@),
            r@.line_i == 0,
    {
        Self {
            language: match language {
                Some(l) => l,
                None => String::from_str("en"),
            },
            lines: str_lines(content.as_str()),
            line_i: 0,
        }
    }

    /// The next line of the feed, or `None` when it is exhausted.
    pub fn next_line(&mut self) -> (r: Option<String>)
        ensures
            final(self)@.lines == old(self)@.lines,
            final(self)@.language == old(self)@.language,
            ({
                let fetched = spec_next(old(self)@.lines, old(self)@.line_i);
                &&& final(self)@.line_i == fetched.1
                &&& match (r, fetched.0) {
                    (Some(s), Some(t)) => s@ == t,
                    (None, None) => true,
                    _ => false,
                }
            }),
    {
        if self.line_i < self.lines.len() {
            let l = self.lines[self.line_i].clone();
            self.line_i = self.line_i + 1;
            Some(l)
        } else {
            None
        }
    }

    /// Reads the URL sub-list opened by `line`: lines until one equals
    /// `]`. A line ending in `{` opens a fresh link, a line starting
    /// with `}` commits the current one, data lines may set `url` and
    /// `label`. Errs when the stream ends before the closing `]`.
    pub fn parse_urllist(&mut self, line: String) -> (r: Result<
        Vec<DelayMapURL>,
        DelayMapWorksParserError,
    >)
        ensures
            final(self)@.lines == old(self)@.lines,
            final(self)@.language == old(self)@.language,
            ({
                let outcome = spec_parse_urllist(
                    old(self)@.lines,
                    old(self)@.line_i,
                    Seq::empty(),
                    default_url(),
                    line@,
                );
                match (r, outcome) {
                    (Ok(urls), UrlOutcome::Done(u, i2)) => urls.deep_view() == u
                        && final(self)@.line_i == i2,
                    (Err(e), UrlOutcome::Exhausted(i2)) => e@ == truncated_message()
                        && final(self)@.line_i == i2,
                    _ => false,
                }
            }),
    {
        let ghost lines0 = self@.lines;
        let ghost line0 = line@;
        let ghost goal = spec_parse_urllist(
            lines0,
            self@.line_i,
            Seq::empty(),
            default_url(),
            line@,
        );
        let mut urls: Vec<DelayMapURL> = Vec::new();
        let mut urlline = line;
        let mut curr_url = DelayMapURL {
            label: String::from_str("Link"),
            url: String::from_str("#"),
        };
        proof {
            assert(urls.deep_view() =~= Seq::<UrlModel>::empty());
        }
        loop
            invariant
                lines0 == old(self)@.lines,
                line0 == line@,
                goal == spec_parse_urllist(
                    lines0,
                    old(self)@.line_i,
                    Seq::empty(),
                    default_url(),
                    line0,
                ),
                self@.lines == lines0,
                self@.language == old(self)@.language,
                spec_parse_urllist(lines0, self@.line_i, urls.deep_view(), curr_url@, urlline@)
                    == goal,
            ensures
                lines0 == old(self)@.lines,
                line0 == line@,
                goal == spec_parse_urllist(
                    lines0,
                    old(self)@.line_i,
                    Seq::empty(),
                    default_url(),
                    line0,
                ),
                self@.lines == lines0,
                self@.language == old(self)@.language,
                urlline@ == "]"@,
                spec_parse_urllist(lines0, self@.line_i, urls.deep_view(), curr_url@, urlline@)
                    == goal,
            decreases lines0.len() - self@.line_i,
        {
            if str_eq(urlline.as_str(), "]") {
                break;
            }
            let fetched = self.next_line();
            match fetched {
                None => {
                    return Err(
                        DelayMapWorksParserError {
                            message: String::from_str("Unexpected end of url list"),
                        },
                    );
                },
                Some(l) => {
                    let ghost urls_prev = urls.deep_view();
                    let ghost curr_prev = curr_url@;
                    if ends_with_char(l.as_str(), '{') {
                        curr_url = DelayMapURL {
                            label: String::from_str("Link"),
                            url: String::from_str("#"),
                        };
                    } else if starts_with_char(l.as_str(), '}') {
                        urls.push(curr_url.clone());
                        proof {
                            assert(urls.deep_view() =~~= urls_prev.push(curr_prev));
                        }
                    } else {
                        match split_key_value(l.as_str()) {
                            Some(kv) => {
                                let (k, v) = kv;
                                if str_eq(k.as_str(), "url") {
                                    curr_url.url = v;
                                } else if str_eq(k.as_str(), "label") {
                                    curr_url.label = v;
                                }
                            },
                            None => {},
                        }
                    }
                    proof {
                        assert((urls.deep_view(), curr_url@) =~~= apply_url_line(
                            urls_prev,
                            curr_prev,
                            l@,
                        ));
                    }
                    urlline = l;
                },
            }
        }
        Ok(urls)
    }

    /// Consumes lines until one record is assembled or the stream ends:
    /// skips a `himmessages` header, returns `Ok(None)` at the stream's
    /// closing `]` or `];` and whenever the stream is exhausted before a
    /// record completes (a partial record is never returned), errs when
    /// a record opens with anything but `{` or `,{` or when a URL
    /// sub-list is truncated, and otherwise returns the assembled
    /// record.
    pub fn parse_next(&mut self, stops: &StopsTable) -> (r: Result<
        Option<DelayMapWorks>,
        DelayMapWorksParserError,
    >)
        ensures
            final(self)@.lines == old(self)@.lines,
            final(self)@.language == old(self)@.language,
            ({
                let step = spec_parse_next(old(self)@.lines, old(self)@.line_i, stops@);
                &&& final(self)@.line_i == step.1
                &&& match (r, step.0) {
                    (Ok(o), ParseOutcome::NoMore) => o is None,
                    (Ok(o), ParseOutcome::Record(w)) => o is Some && o.unwrap()@ == w,
                    (Err(e), ParseOutcome::BadFirstLine(l)) => e@ == bad_first_message(l),
                    (Err(e), ParseOutcome::Truncated) => e@ == truncated_message(),
                    _ => false,
                }
            }),
    {
        let ghost lines0 = self@.lines;
        let ghost i0 = self@.line_i;
        let ghost step = spec_parse_next(lines0, i0, stops@);

        let mut maybe_line = self.next_line();

        let is_header = match &maybe_line {
            Some(l) => str_eq(l.as_str(), "himmessages=[") || str_eq(
                l.as_str(),
                "\"himmessages\"=[",
            ),
            None => false,
        };
        if is_header {
            maybe_line = self.next_line();
        }

        let opening = match maybe_line {
            None => {
                // exhausted before a record could begin: no more records
                return Ok(None);
            },
            Some(l) => l,
        };
        if str_eq(opening.as_str(), "]") || str_eq(opening.as_str(), "];") {
            return Ok(None);
        }
        if !(str_eq(opening.as_str(), "{") || str_eq(opening.as_str(), ",{")) {
            let message = String::from_str("Invalid first line Some(\"").concat(
                opening.as_str(),
            ).concat("\")");
            return Err(DelayMapWorksParserError { message });
        }
        let mut maybe_line: Option<String> = Some(opening);

        let ghost goal = spec_record_loop(
            lines0,
            self@.line_i,
            empty_works(),
            maybe_line.deep_view(),
            stops@,
        );
        proof {
            assert(match goal {
                RecordOutcome::Done(rec, i3) => step.0 == ParseOutcome::Record(rec) && step.1
                    == i3,
                RecordOutcome::Incomplete(i3) => step.0 is NoMore && step.1 == i3,
                RecordOutcome::Truncated(i3) => step.0 is Truncated && step.1 == i3,
            });
        }
        let mut ret = DelayMapWorks::empty();
        loop
            invariant
                lines0 == old(self)@.lines,
                i0 == old(self)@.line_i,
                self@.lines == lines0,
                self@.language == old(self)@.language,
                self@.line_i <= lines0.len(),
                step == spec_parse_next(lines0, i0, stops@),
                goal == spec_record_loop(
                    lines0,
                    self@.line_i,
                    ret@,
                    maybe_line.deep_view(),
                    stops@,
                ),
                match goal {
                    RecordOutcome::Done(rec, i3) => step.0 == ParseOutcome::Record(rec) && step.1
                        == i3,
                    RecordOutcome::Incomplete(i3) => step.0 is NoMore && step.1 == i3,
                    RecordOutcome::Truncated(i3) => step.0 is Truncated && step.1 == i3,
                },
            ensures
                lines0 == old(self)@.lines,
                i0 == old(self)@.line_i,
                step == spec_parse_next(lines0, i0, stops@),
                self@.lines == lines0,
                self@.language == old(self)@.language,
                goal == spec_record_loop(
                    lines0,
                    self@.line_i,
                    ret@,
                    maybe_line.deep_view(),
                    stops@,
                ),
                match goal {
                    RecordOutcome::Done(rec, i3) => step.0 == ParseOutcome::Record(rec) && step.1
                        == i3,
                    RecordOutcome::Incomplete(i3) => step.0 is NoMore && step.1 == i3,
                    RecordOutcome::Truncated(i3) => step.0 is Truncated && step.1 == i3,
                },
                maybe_line.deep_view() is Some && maybe_line.deep_view().unwrap() == "}"@,
            decreases lines0.len() - self@.line_i + (if maybe_line is Some {
                1int
            } else {
                0int
            }),
        {
            let line = match &maybe_line {
                None => {
                    // exhausted before the record's closing brace: the
                    // partial record is discarded, not returned
                    return Ok(None);
                },
                Some(l) => l,
            };
            if str_eq(line.as_str(), "}") {
                break;
            }
            let ghost rec_prev = ret@;
            let ghost i_prev = self@.line_i;
            let ghost l_view = line@;
            match split_key_value(line.as_str()) {
                None => {
                    proof {
                        assert(ret@ =~~= apply_data_line(rec_prev, l_view, stops@));
                    }
                },
                Some(kv) => {
                    let (key, value) = kv;
                    if str_eq(key.as_str(), "urllist") {
                        proof {
                            lemma_urllist_line_not_closing(l_view);
                            lemma_urllist_advances(
                                lines0,
                                i_prev,
                                Seq::empty(),
                                default_url(),
                                l_view,
                            );
                        }
                        match self.parse_urllist(line.clone()) {
                            Ok(urls) => {
                                ret.urls = urls;
                                proof {
                                    assert(ret@.urls =~~= match spec_parse_urllist(
                                        lines0,
                                        i_prev,
                                        Seq::empty(),
                                        default_url(),
                                        l_view,
                                    ) {
                                        UrlOutcome::Done(u, _) => u,
                                        UrlOutcome::Exhausted(_) => Seq::empty(),
                                    });
                                }
                            },
                            Err(e) => {
                                return Err(e);
                            },
                        }
                    } else if str_eq(key.as_str(), "id") {
                        ret.id = value;
                    } else if str_eq(key.as_str(), "caption") {
                        ret.name = value;
                    } else if str_eq(key.as_str(), "message") {
                        ret.message = value;
                    } else if str_eq(key.as_str(), "pubstartdate_0") {
                        ret.start_date = value;
                    } else if str_eq(key.as_str(), "pubstarttime_0") {
                        ret.start_time = value;
                    } else if str_eq(key.as_str(), "pubenddate_0") {
                        ret.end_date = value;
                    } else if str_eq(key.as_str(), "pubendtime_0") {
                        ret.end_time = value;
                    } else if str_eq(key.as_str(), "impactstation_extId") {
                        ret.impacted_station = stops.lookup_translated(value.as_str());
                        proof {
                            assert(ret@ =~~= apply_data_line(rec_prev, l_view, stops@));
                        }
                    } else {
                        proof {
                            assert(ret@ =~~= apply_data_line(rec_prev, l_view, stops@));
                        }
                    }
                },
            }
            proof {
                if !is_urllist_line(l_view) {
                    assert(ret@ =~~= apply_data_line(rec_prev, l_view, stops@));
                }
            }
            maybe_line = self.next_line();
        }
        Ok(Some(ret))
    }
}

/// The records of a whole feed from position `i` on, with the message of
/// the error that stopped parsing, if one did.
pub open spec fn spec_parse_all(lines: Seq<Seq<char>>, i: int, stops: Seq<StopModel>) -> (
    Seq<WorksModel>,
    Option<Seq<char>>,
)
    decreases lines.len() - i,
    via spec_parse_all_decreases
{
    let step = spec_parse_next(lines, i, stops);
    match step.0 {
        ParseOutcome::NoMore => (Seq::empty(), None),
        ParseOutcome::Record(w) => {
            let rest = spec_parse_all(lines, step.1, stops);
            (seq![w] + rest.0, rest.1)
        },
        ParseOutcome::BadFirstLine(l) => (Seq::empty(), Some(bad_first_message(l))),
        ParseOutcome::Truncated => (Seq::empty(), Some(truncated_message())),
    }
}

#[via_fn]
proof fn spec_parse_all_decreases(lines: Seq<Seq<char>>, i: int, stops: Seq<StopModel>) {
    lemma_parse_next_advances(lines, i, stops);
}

/// A call that yields a record consumes at least one line and leaves the
/// position within the stream.
pub proof fn lemma_parse_next_advances(lines: Seq<Seq<char>>, i: int, stops: Seq<StopModel>)
    ensures
        ({
            let step = spec_parse_next(lines, i, stops);
            step.0 is Record ==> i + 1 <= step.1 <= lines.len()
        }),
{
    let step = spec_parse_next(lines, i, stops);
    if step.0 is Record {
        let first = spec_next(lines, i);
        let after_header = if first.0 == Some("himmessages=["@) || first.0 == Some(
            "\"himmessages\"=["@,
        ) {
            spec_next(lines, first.1)
        } else {
            first
        };
        lemma_record_loop_monotonic(lines, after_header.1, empty_works(), after_header.0, stops);
    }
}

impl DelayMapWorksParser {
    /// Parses records until the stream's end or the first error,
    /// returning the records assembled so far and the error, if any.
    pub fn parse_all(&mut self, stops: &StopsTable) -> (r: (
        Vec<DelayMapWorks>,
        Option<DelayMapWorksParserError>,
    ))
        ensures
            final(self)@.lines == old(self)@.lines,
            final(self)@.language == old(self)@.language,
            ({
                let all = spec_parse_all(old(self)@.lines, old(self)@.line_i, stops@);
                &&& r.0.deep_view() == all.0
                &&& match (r.1, all.1) {
                    (Some(e), Some(m)) => e@ == m,
                    (None, None) => true,
                    _ => false,
                }
            }),
    {
        let ghost lines0 = self@.lines;
        let ghost all = spec_parse_all(lines0, self@.line_i, stops@);
        let mut ret: Vec<DelayMapWorks> = Vec::new();
        proof {
            assert(ret.deep_view() =~= Seq::<WorksModel>::empty());
            assert(all.0 =~= ret.deep_view() + spec_parse_all(lines0, self@.line_i, stops@).0);
        }
        loop
            invariant
                lines0 == old(self)@.lines,
                self@.lines == lines0,
                self@.language == old(self)@.language,
                all == spec_parse_all(lines0, old(self)@.line_i, stops@),
                ({
                    let rest = spec_parse_all(lines0, self@.line_i, stops@);
                    all.0 == ret.deep_view() + rest.0 && all.1 == rest.1
                }),
            decreases lines0.len() + 1 - self@.line_i,
        {
            let ghost i_prev = self@.line_i;
            match self.parse_next(stops) {
                Ok(o) => {
                    match o {
                        Some(w) => {
                            let ghost prev = ret.deep_view();
                            ret.push(w);
                            proof {
                                lemma_parse_next_advances(lines0, i_prev, stops@);
                                assert(ret.deep_view() =~~= prev.push(w@));
                                assert(all.0 =~= ret.deep_view() + spec_parse_all(
                                    lines0,
                                    self@.line_i,
                                    stops@,
                                ).0);
                            }
                        },
                        None => {
                            proof {
                                assert(all.0 =~= ret.deep_view());
                            }
                            return (ret, None);
                        },
                    }
                },
                Err(e) => {
                    proof {
                        assert(all.0 =~= ret.deep_view());
                    }
                    return (ret, Some(e));
                },
            }
        }
    }
}


/// A data line as the feed writes one: quoted key, colon, quoted value.
pub open spec fn kv_line(key: Seq<char>, v: Seq<char>) -> Seq<char> {
    seq!['"'] + key + seq!['"', ':', '"'] + v + seq!['"']
}

/// Splitting a quoted data line gives back exactly its key and value,
/// for any key free of `:` and any value at all.
pub proof fn lemma_kv_line(key: Seq<char>, v: Seq<char>)
    requires
        forall|j: int| 0 <= j < key.len() ==> key[j] != ':',
    ensures
        spec_key_value(kv_line(key, v)) == Some((key, v)),
{
    let line = kv_line(key, v);
    let k = key.len() as int;
    assert(line.len() == k + 5 + v.len());
    assert(line[0] == '"');
    assert(forall|j: int| 0 <= j < k ==> line[1 + j] == key[j]);
    assert(line[k + 1] == '"');
    assert(line[k + 2] == ':');
    crate::strings::lemma_find_char_from(line, ':', 0);
    assert(forall|j: int| 0 <= j < k + 2 ==> line[j] != ':') by {
        assert forall|j: int| 0 <= j < k + 2 implies line[j] != ':' by {
            if 1 <= j < k + 1 {
                assert(line[j] == key[j - 1]);
            }
        }
    }
    let f = crate::strings::find_char(line, ':');
    assert(f == k + 2);
    let raw_key = line.subrange(0, k + 2);
    let raw_value = line.subrange(k + 3, line.len() as int);
    assert(raw_key =~= seq!['"'] + key + seq!['"']);
    assert(raw_value =~= seq!['"'] + v + seq!['"']);
    assert(crate::strings::strip_prefix_ch(raw_key, ',') == raw_key);
    assert(crate::strings::strip_prefix_ch(raw_key, '"') =~= key + seq!['"']);
    assert(crate::strings::strip_suffix_ch(key + seq!['"'], '"') =~= key);
    assert(crate::strings::clean_token(raw_key) == key);
    assert(crate::strings::strip_prefix_ch(raw_value, ',') == raw_value);
    assert(crate::strings::strip_prefix_ch(raw_value, '"') =~= v + seq!['"']);
    assert(crate::strings::strip_suffix_ch(v + seq!['"'], '"') =~= v);
    assert(crate::strings::clean_token(raw_value) == v);
}


/// A URL list re-emitted in the feed's own shape: one block per link,
/// closed by a lone `]`.
pub open spec fn emit_urls(urls: Seq<UrlModel>) -> Seq<Seq<char>>
    decreases urls.len(),
{
    if urls.len() == 0 {
        seq!["]"@]
    } else {
        seq![
            "{"@,
            kv_line("url"@, urls[0].url),
            kv_line("label"@, urls[0].label),
            "}"@,
        ] + emit_urls(urls.drop_first())
    }
}

/// One record re-emitted in the feed's own shape, from the recognised
/// fields that are carried as text: the seven plain fields and the URL
/// list.
pub open spec fn emit_record(w: WorksModel) -> Seq<Seq<char>> {
    seq![
        "{"@,
        kv_line("id"@, w.id),
        kv_line("caption"@, w.name),
        kv_line("message"@, w.message),
        kv_line("pubstartdate_0"@, w.start_date),
        kv_line("pubstarttime_0"@, w.start_time),
        kv_line("pubenddate_0"@, w.end_date),
        kv_line("pubendtime_0"@, w.end_time),
        kv_line("urllist"@, "["@),
    ] + emit_urls(w.urls) + seq!["}"@]
}

/// A quoted data line starts and ends with a quote, so the URL loop
/// treats it as a data line, and it is never a lone bracket.
proof fn lemma_kv_line_shape(key: Seq<char>, v: Seq<char>)
    ensures
        kv_line(key, v).len() >= 5,
        kv_line(key, v)[0] == '"',
        kv_line(key, v).last() == '"',
{
    let line = kv_line(key, v);
    assert(line.len() == key.len() + 5 + v.len());
    assert(line.last() == line[line.len() - 1]);
}

/// Parsing an emitted URL list from inside the sub-loop commits exactly
/// the emitted links, in order.
proof fn lemma_parse_emitted_urls(
    lines: Seq<Seq<char>>,
    i: int,
    acc: Seq<UrlModel>,
    curr: UrlModel,
    urlline: Seq<char>,
    urls: Seq<UrlModel>,
)
    requires
        0 <= i,
        i + emit_urls(urls).len() <= lines.len(),
        lines.subrange(i, i + emit_urls(urls).len()) == emit_urls(urls),
        urlline != "]"@,
    ensures
        spec_parse_urllist(lines, i, acc, curr, urlline) == UrlOutcome::Done(
            acc + urls,
            i + emit_urls(urls).len(),
        ),
    decreases urls.len(),
{
    reveal_strlit("{");
    reveal_strlit("}");
    reveal_strlit("]");
    reveal_strlit("url");
    reveal_strlit("label");
    assert("{"@.len() == 1 && "}"@.len() == 1 && "]"@.len() == 1);
    assert("{"@[0] == '{' && "}"@[0] == '}' && "]"@[0] == ']');
    assert("url"@.len() == 3 && "label"@.len() == 5);
    lemma_emit_key_facts();
    let el = emit_urls(urls).len() as int;
    if urls.len() == 0 {
        assert(lines[i] == lines.subrange(i, i + el)[0]);
        assert(lines[i] == "]"@);
        assert(apply_url_line(acc, curr, "]"@) == (acc, curr)) by {
            crate::strings::lemma_find_char_from("]"@, ':', 0);
        }
        assert(spec_parse_urllist(lines, i, acc, curr, urlline) == spec_parse_urllist(
            lines,
            i + 1,
            acc,
            curr,
            "]"@,
        ));
        assert(spec_parse_urllist(lines, i + 1, acc, curr, "]"@) == UrlOutcome::Done(acc, i + 1));
        assert(acc + urls =~= acc);
    } else {
        let u = urls[0];
        let url_line = kv_line("url"@, u.url);
        let label_line = kv_line("label"@, u.label);
        assert(lines[i] == lines.subrange(i, i + el)[0]);
        assert(lines[i + 1] == lines.subrange(i, i + el)[1]);
        assert(lines[i + 2] == lines.subrange(i, i + el)[2]);
        assert(lines[i + 3] == lines.subrange(i, i + el)[3]);
        assert(lines[i] == "{"@);
        assert(lines[i + 1] == url_line);
        assert(lines[i + 2] == label_line);
        assert(lines[i + 3] == "}"@);
        lemma_kv_line("url"@, u.url);
        lemma_kv_line("label"@, u.label);
        lemma_kv_line_shape("url"@, u.url);
        lemma_kv_line_shape("label"@, u.label);

        // the opening brace resets the current link
        assert(apply_url_line(acc, curr, "{"@) == (acc, default_url()));
        // the two data lines fill it in
        assert(url_line != "]"@ && label_line != "]"@);
        assert(apply_url_line(acc, default_url(), url_line) == (
            acc,
            UrlModel { url: u.url, label: default_url().label },
        ));
        let filled = UrlModel { url: u.url, label: u.label };
        assert(apply_url_line(acc, UrlModel { url: u.url, label: default_url().label }, label_line)
            == (acc, filled));
        // the closing brace commits it
        assert(apply_url_line(acc, filled, "}"@) == (acc.push(filled), filled)) by {
            crate::strings::lemma_find_char_from("}"@, ':', 0);
        }
        assert(filled =~~= u);

        let rest = urls.drop_first();
        assert(lines.subrange(i + 4, i + 4 + emit_urls(rest).len()) =~~= emit_urls(rest)) by {
            assert(emit_urls(urls) == seq!["{"@, url_line, label_line, "}"@] + emit_urls(rest));
            assert forall|j: int| 0 <= j < emit_urls(rest).len() implies lines.subrange(
                i + 4,
                i + 4 + emit_urls(rest).len(),
            )[j] == emit_urls(rest)[j] by {
                assert(lines[i + 4 + j] == lines.subrange(i, i + emit_urls(urls).len())[4 + j]);
            }
        }
        assert("{"@ != "]"@ && "}"@ != "]"@);
        let started = UrlModel { url: u.url, label: default_url().label };
        assert(spec_parse_urllist(lines, i, acc, curr, urlline) == spec_parse_urllist(
            lines,
            i + 1,
            acc,
            default_url(),
            "{"@,
        ));
        assert(spec_parse_urllist(lines, i + 1, acc, default_url(), "{"@) == spec_parse_urllist(
            lines,
            i + 2,
            acc,
            started,
            url_line,
        ));
        assert(spec_parse_urllist(lines, i + 2, acc, started, url_line) == spec_parse_urllist(
            lines,
            i + 3,
            acc,
            filled,
            label_line,
        ));
        assert(spec_parse_urllist(lines, i + 3, acc, filled, label_line) == spec_parse_urllist(
            lines,
            i + 4,
            acc.push(filled),
            filled,
            "}"@,
        ));
        lemma_parse_emitted_urls(lines, i + 4, acc.push(u), u, "}"@, rest);
        assert(acc.push(u) + rest =~= acc + urls);
    }
}

/// Keys free of `:`, and the disequalities the parser's key chains need.
proof fn lemma_emit_key_facts()
    ensures
        forall|j: int| 0 <= j < "id"@.len() ==> "id"@[j] != ':',
        forall|j: int| 0 <= j < "caption"@.len() ==> "caption"@[j] != ':',
        forall|j: int| 0 <= j < "message"@.len() ==> "message"@[j] != ':',
        forall|j: int| 0 <= j < "pubstartdate_0"@.len() ==> "pubstartdate_0"@[j] != ':',
        forall|j: int| 0 <= j < "pubstarttime_0"@.len() ==> "pubstarttime_0"@[j] != ':',
        forall|j: int| 0 <= j < "pubenddate_0"@.len() ==> "pubenddate_0"@[j] != ':',
        forall|j: int| 0 <= j < "pubendtime_0"@.len() ==> "pubendtime_0"@[j] != ':',
        forall|j: int| 0 <= j < "urllist"@.len() ==> "urllist"@[j] != ':',
        forall|j: int| 0 <= j < "impactstation_extId"@.len() ==> "impactstation_extId"@[j]
            != ':',
        "impactstation_extId"@ != "urllist"@,
        "impactstation_extId"@ != "id"@,
        "impactstation_extId"@ != "caption"@,
        "impactstation_extId"@ != "message"@,
        "impactstation_extId"@ != "pubstartdate_0"@,
        "impactstation_extId"@ != "pubstarttime_0"@,
        "impactstation_extId"@ != "pubenddate_0"@,
        "impactstation_extId"@ != "pubendtime_0"@,
        forall|j: int| 0 <= j < "url"@.len() ==> "url"@[j] != ':',
        forall|j: int| 0 <= j < "label"@.len() ==> "label"@[j] != ':',
        "label"@ != "url"@,
        "id"@ != "urllist"@,
        "caption"@ != "urllist"@,
        "message"@ != "urllist"@,
        "pubstartdate_0"@ != "urllist"@,
        "pubstarttime_0"@ != "urllist"@,
        "pubenddate_0"@ != "urllist"@,
        "pubendtime_0"@ != "urllist"@,
        "caption"@ != "id"@,
        "message"@ != "id"@,
        "message"@ != "caption"@,
        "pubstartdate_0"@ != "id"@,
        "pubstartdate_0"@ != "caption"@,
        "pubstartdate_0"@ != "message"@,
        "pubstarttime_0"@ != "id"@,
        "pubstarttime_0"@ != "caption"@,
        "pubstarttime_0"@ != "message"@,
        "pubstarttime_0"@ != "pubstartdate_0"@,
        "pubenddate_0"@ != "id"@,
        "pubenddate_0"@ != "caption"@,
        "pubenddate_0"@ != "message"@,
        "pubenddate_0"@ != "pubstartdate_0"@,
        "pubenddate_0"@ != "pubstarttime_0"@,
        "pubendtime_0"@ != "id"@,
        "pubendtime_0"@ != "caption"@,
        "pubendtime_0"@ != "message"@,
        "pubendtime_0"@ != "pubstartdate_0"@,
        "pubendtime_0"@ != "pubstarttime_0"@,
        "pubendtime_0"@ != "pubenddate_0"@,
{
    reveal_strlit("id");
    reveal_strlit("caption");
    reveal_strlit("message");
    reveal_strlit("pubstartdate_0");
    reveal_strlit("pubstarttime_0");
    reveal_strlit("pubenddate_0");
    reveal_strlit("pubendtime_0");
    reveal_strlit("urllist");
    reveal_strlit("url");
    reveal_strlit("label");
    reveal_strlit("impactstation_extId");
    assert("impactstation_extId"@.len() == 19);
    assert("url"@.len() == 3 && "label"@.len() == 5);
    assert("id"@.len() == 2);
    assert("caption"@.len() == 7);
    assert("message"@.len() == 7);
    assert("urllist"@.len() == 7);
    assert("pubstartdate_0"@.len() == 14);
    assert("pubstarttime_0"@.len() == 14);
    assert("pubenddate_0"@.len() == 12);
    assert("pubendtime_0"@.len() == 12);
    assert("caption"@[0] == 'c' && "message"@[0] == 'm' && "urllist"@[0] == 'u');
    assert("pubstartdate_0"@[8] == 'd' && "pubstarttime_0"@[8] == 't');
    assert("pubenddate_0"@[6] == 'd' && "pubendtime_0"@[6] == 't');
}

/// Parsing a record freshly emitted from its recognised text fields
/// gives the record back: the recognised subset is lossless through the
/// feed's shape. A resolved station is a lookup into the schedule, not
/// text of the record, so this round trip speaks of records without one.
pub proof fn lemma_emit_parse_round_trip(w: WorksModel, stops: Seq<StopModel>)
    requires
        w.impacted_station is None,
    ensures
        spec_parse_next(emit_record(w), 0, stops).0 == ParseOutcome::Record(w),
{
    let lines = emit_record(w);
    let ul = emit_urls(w.urls).len() as int;
    lemma_emit_key_facts();
    lemma_kv_line("id"@, w.id);
    lemma_kv_line("caption"@, w.name);
    lemma_kv_line("message"@, w.message);
    lemma_kv_line("pubstartdate_0"@, w.start_date);
    lemma_kv_line("pubstarttime_0"@, w.start_time);
    lemma_kv_line("pubenddate_0"@, w.end_date);
    lemma_kv_line("pubendtime_0"@, w.end_time);
    lemma_kv_line("urllist"@, "["@);
    reveal_strlit("{");
    reveal_strlit("}");
    reveal_strlit("]");
    reveal_strlit("];");
    reveal_strlit(",{");
    reveal_strlit("himmessages=[");
    reveal_strlit("\"himmessages\"=[");

    assert(lines.len() == 10 + ul);
    assert(lines[0] == "{"@);
    assert("{"@.len() == 1 && "himmessages=["@.len() == 13 && "\"himmessages\"=["@.len() == 15);
    assert("];"@.len() == 2 && "}"@.len() == 1 && "]"@.len() == 1);
    assert("{"@[0] == '{' && "]"@[0] == ']' && "}"@[0] == '}');
    assert("{"@ != "]"@ && "{"@ != "}"@);

    let first = spec_next(lines, 0);
    assert(first == (Some("{"@), 1int));

    // braces are no data lines
    assert(spec_key_value("{"@) is None) by {
        crate::strings::lemma_find_char_from("{"@, ':', 0);
    }
    assert(spec_key_value("}"@) is None) by {
        crate::strings::lemma_find_char_from("}"@, ':', 0);
    }

    let r0 = empty_works();
    assert(spec_record_loop(lines, 1, r0, Some("{"@), stops) == spec_record_loop(
        lines,
        2,
        r0,
        Some(lines[1]),
        stops,
    ));
    let r1 = WorksModel { id: w.id, ..r0 };
    assert(apply_data_line(r0, lines[1], stops) == r1);
    assert(spec_record_loop(lines, 2, r0, Some(lines[1]), stops) == spec_record_loop(
        lines,
        3,
        r1,
        Some(lines[2]),
        stops,
    ));
    let r2 = WorksModel { name: w.name, ..r1 };
    assert(apply_data_line(r1, lines[2], stops) == r2);
    assert(spec_record_loop(lines, 3, r1, Some(lines[2]), stops) == spec_record_loop(
        lines,
        4,
        r2,
        Some(lines[3]),
        stops,
    ));
    let r3 = WorksModel { message: w.message, ..r2 };
    assert(apply_data_line(r2, lines[3], stops) == r3);
    assert(spec_record_loop(lines, 4, r2, Some(lines[3]), stops) == spec_record_loop(
        lines,
        5,
        r3,
        Some(lines[4]),
        stops,
    ));
    let r4 = WorksModel { start_date: w.start_date, ..r3 };
    assert(apply_data_line(r3, lines[4], stops) == r4);
    assert(spec_record_loop(lines, 5, r3, Some(lines[4]), stops) == spec_record_loop(
        lines,
        6,
        r4,
        Some(lines[5]),
        stops,
    ));
    let r5 = WorksModel { start_time: w.start_time, ..r4 };
    assert(apply_data_line(r4, lines[5], stops) == r5);
    assert(spec_record_loop(lines, 6, r4, Some(lines[5]), stops) == spec_record_loop(
        lines,
        7,
        r5,
        Some(lines[6]),
        stops,
    ));
    let r6 = WorksModel { end_date: w.end_date, ..r5 };
    assert(apply_data_line(r5, lines[6], stops) == r6);
    assert(spec_record_loop(lines, 7, r5, Some(lines[6]), stops) == spec_record_loop(
        lines,
        8,
        r6,
        Some(lines[7]),
        stops,
    ));
    let r7 = WorksModel { end_time: w.end_time, ..r6 };
    assert(apply_data_line(r6, lines[7], stops) == r7);
    assert(spec_record_loop(lines, 8, r6, Some(lines[7]), stops) == spec_record_loop(
        lines,
        9,
        r7,
        Some(lines[8]),
        stops,
    ));

    // the URL list line hands over to the sub-loop
    assert(lines[8] == kv_line("urllist"@, "["@));
    assert(is_urllist_line(lines[8]));
    lemma_kv_line_shape("urllist"@, "["@);
    assert(lines[8] != "]"@ && lines[8] != "}"@);
    assert(lines.subrange(9, 9 + ul) =~~= emit_urls(w.urls)) by {
        assert forall|j: int| 0 <= j < ul implies lines.subrange(9, 9 + ul)[j] == emit_urls(
            w.urls,
        )[j] by {
            assert(lines[9 + j] == emit_urls(w.urls)[j]);
        }
    }
    lemma_parse_emitted_urls(lines, 9, Seq::empty(), default_url(), lines[8], w.urls);
    assert(Seq::<UrlModel>::empty() + w.urls =~= w.urls);
    let r8 = WorksModel { urls: w.urls, ..r7 };
    assert(lines[9 + ul] == "}"@);
    assert(spec_record_loop(lines, 9, r7, Some(lines[8]), stops) == spec_record_loop(
        lines,
        10 + ul,
        r8,
        Some("}"@),
        stops,
    ));
    assert(spec_record_loop(lines, 10 + ul, r8, Some("}"@), stops) == RecordOutcome::Done(
        r8,
        10 + ul,
    ));
    assert(r8 =~~= w);
}


/// One record re-emitted in the feed's own shape when it carries a
/// resolved station: as `emit_record`, with the station's id between the
/// text fields and the URL list.
pub open spec fn emit_record_with_station(w: WorksModel) -> Seq<Seq<char>> {
    seq![
        "{"@,
        kv_line("id"@, w.id),
        kv_line("caption"@, w.name),
        kv_line("message"@, w.message),
        kv_line("pubstartdate_0"@, w.start_date),
        kv_line("pubstarttime_0"@, w.start_time),
        kv_line("pubenddate_0"@, w.end_date),
        kv_line("pubendtime_0"@, w.end_time),
        kv_line("impactstation_extId"@, w.impacted_station.unwrap().stop_id),
        kv_line("urllist"@, "["@),
    ] + emit_urls(w.urls) + seq!["}"@]
}

/// The round trip for a record with a resolved station: parsing the
/// emitted record gives it back, provided the schedule resolves the
/// station's id to that very station.
pub proof fn lemma_emit_parse_round_trip_with_station(w: WorksModel, stops: Seq<StopModel>)
    requires
        w.impacted_station is Some,
        ({
            let st = w.impacted_station.unwrap();
            spec_lookup_stop(stops, st.stop_id) == Some(
                StopModel { id: st.stop_id, name: st.name, lat: st.lat, lon: st.lon },
            )
        }),
    ensures
        spec_parse_next(emit_record_with_station(w), 0, stops).0 == ParseOutcome::Record(w),
{
    let lines = emit_record_with_station(w);
    let st = w.impacted_station.unwrap();
    let ul = emit_urls(w.urls).len() as int;
    lemma_emit_key_facts();
    lemma_kv_line("id"@, w.id);
    lemma_kv_line("caption"@, w.name);
    lemma_kv_line("message"@, w.message);
    lemma_kv_line("pubstartdate_0"@, w.start_date);
    lemma_kv_line("pubstarttime_0"@, w.start_time);
    lemma_kv_line("pubenddate_0"@, w.end_date);
    lemma_kv_line("pubendtime_0"@, w.end_time);
    lemma_kv_line("impactstation_extId"@, st.stop_id);
    lemma_kv_line("urllist"@, "["@);
    reveal_strlit("{");
    reveal_strlit("}");
    reveal_strlit("]");
    reveal_strlit("];");
    reveal_strlit(",{");
    reveal_strlit("himmessages=[");
    reveal_strlit("\"himmessages\"=[");

    assert(lines.len() == 11 + ul);
    assert(lines[0] == "{"@);
    assert("{"@.len() == 1 && "himmessages=["@.len() == 13 && "\"himmessages\"=["@.len() == 15);
    assert("];"@.len() == 2 && "}"@.len() == 1 && "]"@.len() == 1);
    assert("{"@[0] == '{' && "]"@[0] == ']' && "}"@[0] == '}');
    assert("{"@ != "]"@ && "{"@ != "}"@);

    let first = spec_next(lines, 0);
    assert(first == (Some("{"@), 1int));
    assert(spec_key_value("{"@) is None) by {
        crate::strings::lemma_find_char_from("{"@, ':', 0);
    }
    assert(spec_key_value("}"@) is None) by {
        crate::strings::lemma_find_char_from("}"@, ':', 0);
    }

    let r0 = empty_works();
    assert(spec_record_loop(lines, 1, r0, Some("{"@), stops) == spec_record_loop(
        lines,
        2,
        r0,
        Some(lines[1]),
        stops,
    ));
    let r1 = WorksModel { id: w.id, ..r0 };
    assert(apply_data_line(r0, lines[1], stops) == r1);
    assert(spec_record_loop(lines, 2, r0, Some(lines[1]), stops) == spec_record_loop(
        lines,
        3,
        r1,
        Some(lines[2]),
        stops,
    ));
    let r2 = WorksModel { name: w.name, ..r1 };
    assert(apply_data_line(r1, lines[2], stops) == r2);
    assert(spec_record_loop(lines, 3, r1, Some(lines[2]), stops) == spec_record_loop(
        lines,
        4,
        r2,
        Some(lines[3]),
        stops,
    ));
    let r3 = WorksModel { message: w.message, ..r2 };
    assert(apply_data_line(r2, lines[3], stops) == r3);
    assert(spec_record_loop(lines, 4, r2, Some(lines[3]), stops) == spec_record_loop(
        lines,
        5,
        r3,
        Some(lines[4]),
        stops,
    ));
    let r4 = WorksModel { start_date: w.start_date, ..r3 };
    assert(apply_data_line(r3, lines[4], stops) == r4);
    assert(spec_record_loop(lines, 5, r3, Some(lines[4]), stops) == spec_record_loop(
        lines,
        6,
        r4,
        Some(lines[5]),
        stops,
    ));
    let r5 = WorksModel { start_time: w.start_time, ..r4 };
    assert(apply_data_line(r4, lines[5], stops) == r5);
    assert(spec_record_loop(lines, 6, r4, Some(lines[5]), stops) == spec_record_loop(
        lines,
        7,
        r5,
        Some(lines[6]),
        stops,
    ));
    let r6 = WorksModel { end_date: w.end_date, ..r5 };
    assert(apply_data_line(r5, lines[6], stops) == r6);
    assert(spec_record_loop(lines, 7, r5, Some(lines[6]), stops) == spec_record_loop(
        lines,
        8,
        r6,
        Some(lines[7]),
        stops,
    ));
    let r7 = WorksModel { end_time: w.end_time, ..r6 };
    assert(apply_data_line(r6, lines[7], stops) == r7);
    assert(spec_record_loop(lines, 8, r6, Some(lines[7]), stops) == spec_record_loop(
        lines,
        9,
        r7,
        Some(lines[8]),
        stops,
    ));

    // the station line resolves the station back
    assert(lines[8] == kv_line("impactstation_extId"@, st.stop_id));
    let r8 = WorksModel { impacted_station: Some(st), ..r7 };
    assert(apply_data_line(r7, lines[8], stops) =~~= r8);
    assert(spec_record_loop(lines, 9, r7, Some(lines[8]), stops) == spec_record_loop(
        lines,
        10,
        apply_data_line(r7, lines[8], stops),
        Some(lines[9]),
        stops,
    ));
    assert(spec_record_loop(lines, 10, apply_data_line(r7, lines[8], stops), Some(lines[9]), stops)
        == spec_record_loop(lines, 10, r8, Some(lines[9]), stops));

    // the URL list line hands over to the sub-loop
    assert(lines[9] == kv_line("urllist"@, "["@));
    assert(is_urllist_line(lines[9]));
    lemma_kv_line_shape("urllist"@, "["@);
    assert(lines[9] != "]"@ && lines[9] != "}"@);
    assert(lines.subrange(10, 10 + ul) =~~= emit_urls(w.urls)) by {
        assert forall|j: int| 0 <= j < ul implies lines.subrange(10, 10 + ul)[j] == emit_urls(
            w.urls,
        )[j] by {
            assert(lines[10 + j] == emit_urls(w.urls)[j]);
        }
    }
    lemma_parse_emitted_urls(lines, 10, Seq::empty(), default_url(), lines[9], w.urls);
    assert(Seq::<UrlModel>::empty() + w.urls =~= w.urls);
    let r9 = WorksModel { urls: w.urls, ..r8 };
    assert(lines[10 + ul] == "}"@);
    assert(spec_record_loop(lines, 10, r8, Some(lines[9]), stops) == spec_record_loop(
        lines,
        11 + ul,
        r9,
        Some("}"@),
        stops,
    ));
    assert(spec_record_loop(lines, 11 + ul, r9, Some("}"@), stops) == RecordOutcome::Done(
        r9,
        11 + ul,
    ));
    assert(r9 =~~= w);
}

} // verus!
