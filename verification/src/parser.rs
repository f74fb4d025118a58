//! The time-series parser: a flat state machine over the document's
//! structural events that reconstructs (timestamp, raw value) points,
//! inferring timestamps from a declared interval start and the hourly
//! resolution step.

use vstd::prelude::*;
use crate::events::MarketEvent;
use crate::events::events_of;
use crate::series::PricePoint;
use crate::text::{str_eq, trim, parse_decimal, spec_trim, spec_parse_decimal};
use crate::timestamp::{parse_timestamp, spec_parse_timestamp};

verus! {

/// The hourly resolution step, in seconds.
pub const HOUR_STEP: i64 = 3600;

/// A fatal parse fault: the document's structure survived, but a price
/// field did not parse as a decimal literal.
#[derive(Clone, Copy, Debug, PartialEq, Eq, Structural)]
pub enum ParseError {
    InvalidPrice,
}

/// The mathematical parser state: what each field of [`TimeSeriesParser`]
/// stands for.
#[verifier::ext_equal]
pub struct ParserModel {
    pub in_time_interval: bool,
    pub in_point: bool,
    pub current_element: Seq<char>,
    pub current_timestamp: Option<i64>,
    pub step_seconds: Option<i64>,
    pub points: Seq<PricePoint>,
}

/// The parser before any event: no open element, no cursor, no step.
pub open spec fn spec_init() -> ParserModel {
    ParserModel {
        in_time_interval: false,
        in_point: false,
        current_element: Seq::empty(),
        current_timestamp: None,
        step_seconds: None,
        points: Seq::empty(),
    }
}

/// An element opens: it becomes the current element, and entering
/// `timeInterval` or `Point` raises the matching flag.
pub open spec fn spec_on_start(st: ParserModel, name: Seq<char>) -> ParserModel {
    ParserModel {
        current_element: name,
        in_time_interval: st.in_time_interval || name == "timeInterval"@,
        in_point: st.in_point || name == "Point"@,
        ..st
    }
}

/// An element closes: leaving `timeInterval` or `Point` lowers the matching
/// flag, and the current element is cleared.
pub open spec fn spec_on_end(st: ParserModel, name: Seq<char>) -> ParserModel {
    ParserModel {
        current_element: Seq::empty(),
        in_time_interval: if name == "timeInterval"@ {
            false
        } else {
            st.in_time_interval
        },
        in_point: if name == "Point"@ {
            false
        } else {
            st.in_point
        },
        ..st
    }
}

/// Character data, dispatched on the flags and the current element:
/// a `start` inside a time interval sets the cursor (an unparsable literal
/// is skipped); a `resolution` equal to `PT60M` sets the hourly step; a
/// `price.amount` inside a `Point` appends `(cursor, price)` and, when a
/// step is known, advances the cursor (clearing it if the advance would
/// leave the timestamp range).  An unparsable price is the one fatal fault
/// (`None`); a price with no cursor yet is dropped.
pub open spec fn spec_on_characters(st: ParserModel, data: Seq<char>) -> Option<ParserModel> {
    if st.in_time_interval && st.current_element == "start"@ {
        match spec_parse_timestamp(data) {
            Some(t) => Some(ParserModel { current_timestamp: Some(t as i64), ..st }),
            None => Some(st),
        }
    } else if st.current_element == "resolution"@ {
        if spec_trim(data) == "PT60M"@ {
            Some(ParserModel { step_seconds: Some(HOUR_STEP as i64), ..st })
        } else {
            Some(st)
        }
    } else if st.in_point && st.current_element == "price.amount"@ {
        match spec_parse_decimal(spec_trim(data)) {
            None => None,
            Some(v) => match st.current_timestamp {
                Some(t) => {
                    let advanced = match st.step_seconds {
                        Some(s) => t.checked_add(s),
                        None => Some(t),
                    };
                    Some(
                        ParserModel {
                            points: st.points.push(PricePoint { ts: t, value: v as i64 }),
                            current_timestamp: advanced,
                            ..st
                        },
                    )
                },
                None => Some(st),
            },
        }
    } else {
        Some(st)
    }
}

/// One event.
pub open spec fn spec_step(st: ParserModel, ev: MarketEvent) -> Option<ParserModel> {
    match ev {
        MarketEvent::Start(name) => Some(spec_on_start(st, name@)),
        MarketEvent::End(name) => Some(spec_on_end(st, name@)),
        MarketEvent::Text(data) => spec_on_characters(st, data@),
    }
}

/// A run over an event sequence, stopping at the first fatal fault.
pub open spec fn spec_run(st: ParserModel, evs: Seq<MarketEvent>) -> Option<ParserModel>
    decreases evs.len(),
{
    if evs.len() == 0 {
        Some(st)
    } else {
        match spec_step(st, evs[0]) {
            Some(st1) => spec_run(st1, evs.drop_first()),
            None => None,
        }
    }
}

/// The points that an event sequence yields from the initial state, or
/// `None` on a fatal price fault.
pub open spec fn spec_points_of_events(evs: Seq<MarketEvent>) -> Option<Seq<PricePoint>> {
    match spec_run(spec_init(), evs) {
        Some(st) => Some(st.points),
        None => None,
    }
}

/// The points of a whole document text.
pub open spec fn spec_parse_doc(doc: Seq<char>) -> Option<Seq<PricePoint>> {
    spec_points_of_events(events_of(doc))
}

/// A run distributes over concatenation: the second part continues from
/// where the first left off, and a fault in the first part is final.
pub proof fn lemma_run_append(st: ParserModel, a: Seq<MarketEvent>, b: Seq<MarketEvent>)
    ensures
        spec_run(st, a + b) == (match spec_run(st, a) {
            Some(s1) => spec_run(s1, b),
            None => None,
        }),
    decreases a.len(),
{
    if a.len() == 0 {
        assert(a + b =~= b);
    } else {
        assert((a + b).drop_first() =~= a.drop_first() + b);
        assert((a + b)[0] == a[0]);
        match spec_step(st, a[0]) {
            Some(st1) => {
                lemma_run_append(st1, a.drop_first(), b);
            },
            None => {},
        }
    }
}

/// A run over a single event is that event's step.
proof fn lemma_run_one(st: ParserModel, ev: MarketEvent)
    ensures
        spec_run(st, seq![ev]) == spec_step(st, ev),
{
    let s = seq![ev];
    assert(s.drop_first() =~= Seq::<MarketEvent>::empty());
    match spec_step(st, ev) {
        Some(st1) => {
            assert(spec_run(st1, s.drop_first()) == Some(st1));
        },
        None => {},
    }
}

/// The event-driven parser state, as the original document reader threads
/// it: two containment flags, the open element's name, the running
/// timestamp cursor, the optional resolution step, and the points emitted.
pub struct TimeSeriesParser {
    pub in_time_interval: bool,
    pub in_point: bool,
    pub current_element: String,
    pub current_timestamp: Option<i64>,
    pub step_seconds: Option<i64>,
    pub points: Vec<PricePoint>,
}

impl View for TimeSeriesParser {
    type V = ParserModel;

    open spec fn view(&self) -> ParserModel {
        ParserModel {
            in_time_interval: self.in_time_interval,
            in_point: self.in_point,
            current_element: self.current_element@,
            current_timestamp: self.current_timestamp,
            step_seconds: self.step_seconds,
            points: self.points@,
        }
    }
}

impl TimeSeriesParser {
    /// A fresh parser, before any event.
    pub fn new() -> (r: Self)
        ensures
            r@ == spec_init(),
    {
        let r = TimeSeriesParser {
            in_time_interval: false,
            in_point: false,
            current_element: String::new(),
            current_timestamp: None,
            step_seconds: None,
            points: Vec::new(),
        };
        proof {
            assert(r@ =~= spec_init());
        }
        r
    }

    /// Handles an element start, as [`spec_on_start`] states.
    pub fn on_start_element(&mut self, name: &str)
        ensures
            final(self)@ == spec_on_start(old(self)@, name@),
    {
        proof {
            lemma_names();
        }
        self.current_element = name.to_owned();
        if str_eq(name, "timeInterval") {
            self.in_time_interval = true;
        } else if str_eq(name, "Point") {
            self.in_point = true;
        }
        proof {
            assert(self@ =~= spec_on_start(old(self)@, name@));
        }
    }

    /// Handles an element end, as [`spec_on_end`] states.
    pub fn on_end_element(&mut self, name: &str)
        ensures
            final(self)@ == spec_on_end(old(self)@, name@),
    {
        proof {
            lemma_names();
        }
        if str_eq(name, "timeInterval") {
            self.in_time_interval = false;
        } else if str_eq(name, "Point") {
            self.in_point = false;
        }
        self.current_element = String::new();
        proof {
            assert(self@ =~= spec_on_end(old(self)@, name@));
        }
    }

    /// Handles character data, as [`spec_on_characters`] states; the error
    /// comes exactly when the data is an unparsable price field.
    pub fn on_characters(&mut self, data: &str) -> (r: Result<(), ParseError>)
        ensures
            r matches Ok(u) ==> Some(final(self)@) == spec_on_characters(old(self)@, data@),
            r is Err ==> spec_on_characters(old(self)@, data@) is None && final(self)@ == old(
                self,
            )@,
    {
        proof {
            lemma_names();
        }
        if self.in_time_interval && str_eq(self.current_element.as_str(), "start") {
            match parse_timestamp(data) {
                Some(t) => {
                    self.current_timestamp = Some(t);
                },
                None => {},
            }
            proof {
                assert(spec_on_characters(old(self)@, data@) is Some);
                assert(self@ =~= spec_on_characters(old(self)@, data@)->0);
            }
            Ok(())
        } else if str_eq(self.current_element.as_str(), "resolution") {
            let tr = trim(data);
            if str_eq(tr, "PT60M") {
                self.step_seconds = Some(HOUR_STEP);
            }
            proof {
                assert(spec_on_characters(old(self)@, data@) is Some);
                assert(self@ =~= spec_on_characters(old(self)@, data@)->0);
            }
            Ok(())
        } else if self.in_point && str_eq(self.current_element.as_str(), "price.amount") {
            let tr = trim(data);
            match parse_decimal(tr) {
                None => Err(ParseError::InvalidPrice),
                Some(v) => {
                    if let Some(t) = self.current_timestamp {
                        self.points.push(PricePoint { ts: t, value: v });
                        if let Some(s) = self.step_seconds {
                            self.current_timestamp = t.checked_add(s);
                        }
                    }
                    proof {
                        assert(spec_on_characters(old(self)@, data@) is Some);
                        assert(self@ =~= spec_on_characters(old(self)@, data@)->0);
                    }
                    Ok(())
                },
            }
        } else {
            Ok(())
        }
    }
}

/// Folds a whole event sequence through the parser, as
/// [`spec_points_of_events`] states; `Err(InvalidPrice)` comes exactly when
/// some price field fails to parse before any transport fault.
pub fn parse_events(events: &Vec<MarketEvent>) -> (r: Result<Vec<PricePoint>, ParseError>)
    ensures
        r matches Ok(v) ==> Some(v@) == spec_points_of_events(events@),
        r is Err ==> spec_points_of_events(events@) is None,
{
    let mut p = TimeSeriesParser::new();
    let n = events.len();
    let mut i: usize = 0;
    while i < n
        invariant
            i <= n,
            n == events@.len(),
            spec_run(spec_init(), events@.take(i as int)) == Some(p@),
        decreases n - i,
    {
        let ghost pre = p@;
        let ev = &events[i];
        let step_ok: Result<(), ParseError> = match ev {
            MarketEvent::Start(name) => {
                p.on_start_element(name.as_str());
                Ok(())
            },
            MarketEvent::End(name) => {
                p.on_end_element(name.as_str());
                Ok(())
            },
            MarketEvent::Text(data) => p.on_characters(data.as_str()),
        };
        proof {
            lemma_run_append(
                spec_init(),
                events@.take(i as int),
                seq![events@[i as int]],
            );
            assert(events@.take(i as int) + seq![events@[i as int]] =~= events@.take(i + 1));
        }
        match step_ok {
            Ok(u) => {
                proof {
                    lemma_run_one(pre, events@[i as int]);
                    assert(spec_run(spec_init(), events@.take(i + 1)) == Some(p@));
                }
            },
            Err(e) => {
                proof {
                    lemma_run_one(pre, events@[i as int]);
                    lemma_run_append(spec_init(), events@.take(i + 1), events@.skip(i + 1));
                    assert(events@.take(i + 1) + events@.skip(i + 1) =~= events@);
                }
                return Err(e);
            },
        }
        i = i + 1;
    }
    proof {
        assert(events@.take(n as int) =~= events@);
    }
    Ok(p.points)
}

/// Parses a market document: tokenizes it and folds the events, as
/// [`spec_parse_doc`] states.  A transport-level fault truncates the event
/// stream, so whatever points were accumulated before it are returned;
/// an unparsable price field is the one fatal error.
pub fn parse_xml(prices_xml: &str) -> (r: Result<Vec<PricePoint>, ParseError>)
    ensures
        r matches Ok(v) ==> Some(v@) == spec_parse_doc(prices_xml@),
        r is Err ==> spec_parse_doc(prices_xml@) is None,
{
    let events = crate::events::read_events(prices_xml);
    parse_events(&events)
}

/// Parsing is a pure function of the document text: re-parsing the same
/// byte sequence yields an identical outcome.
pub proof fn lemma_parse_idempotent(a: Seq<char>, b: Seq<char>)
    requires
        a == b,
    ensures
        spec_parse_doc(a) == spec_parse_doc(b),
{
}

/// The event opens the named element.
pub open spec fn is_start_of(ev: MarketEvent, name: Seq<char>) -> bool {
    ev matches MarketEvent::Start(s) && s@ == name
}

/// The event closes the named element.
pub open spec fn is_end_of(ev: MarketEvent, name: Seq<char>) -> bool {
    ev matches MarketEvent::End(s) && s@ == name
}

/// The event is character data parsing to the given price.
pub open spec fn is_price_text(ev: MarketEvent, price: i64) -> bool {
    ev matches MarketEvent::Text(d) && spec_parse_decimal(spec_trim(d@)) == Some(price as int)
}

/// A well-formed `Point` group: the element opens, its `price.amount`
/// carries the price, both close.
pub open spec fn is_point_group(evs: Seq<MarketEvent>, price: i64) -> bool {
    evs.len() == 5 && is_start_of(evs[0], "Point"@) && is_start_of(evs[1], "price.amount"@)
        && is_price_text(evs[2], price) && is_end_of(evs[3], "price.amount"@) && is_end_of(
        evs[4],
        "Point"@,
    )
}

/// A run of well-formed `Point` groups carrying the given prices.
pub open spec fn is_point_groups(evs: Seq<MarketEvent>, prices: Seq<i64>) -> bool
    decreases prices.len(),
{
    if prices.len() == 0 {
        evs.len() == 0
    } else {
        evs.len() >= 5 && is_point_group(evs.take(5), prices[0]) && is_point_groups(
            evs.skip(5),
            prices.drop_first(),
        )
    }
}

/// A well-formed interval header: a `timeInterval` whose `start` parses to
/// `t0`, followed by a `resolution` reading `PT60M`.
pub open spec fn is_interval_header(evs: Seq<MarketEvent>, t0: i64) -> bool {
    evs.len() == 8 && is_start_of(evs[0], "timeInterval"@) && is_start_of(evs[1], "start"@) && (
    evs[2] matches MarketEvent::Text(d) && spec_parse_timestamp(d@) == Some(t0 as int))
        && is_end_of(evs[3], "start"@) && is_end_of(evs[4], "timeInterval"@) && is_start_of(
        evs[5],
        "resolution"@,
    ) && (evs[6] matches MarketEvent::Text(d) && spec_trim(d@) == "PT60M"@) && is_end_of(
        evs[7],
        "resolution"@,
    )
}

/// Reveals every element-name literal the state machine dispatches on, so
/// that their views and mutual inequalities are available.
proof fn lemma_names()
    ensures
        "timeInterval"@.len() == 12,
        "Point"@.len() == 5,
        "start"@.len() == 5,
        "resolution"@.len() == 10,
        "price.amount"@.len() == 12,
        "Point"@ != "start"@,
        "price.amount"@ != "timeInterval"@,
        "Point"@ != "timeInterval"@,
        "price.amount"@ != "Point"@,
        "price.amount"@ != "start"@,
        "price.amount"@ != "resolution"@,
        "start"@ != "timeInterval"@,
        "start"@ != "resolution"@,
        "resolution"@ != "timeInterval"@,
        "Point"@ != "resolution"@,
{
    reveal_strlit("timeInterval");
    reveal_strlit("Point");
    reveal_strlit("start");
    reveal_strlit("resolution");
    reveal_strlit("price.amount");
    assert("Point"@[0] == 'P');
    assert("start"@[0] == 's');
    assert("price.amount"@[0] == 'p');
    assert("timeInterval"@[0] == 't');
}

/// From a state whose cursor stands at `t0` with the hourly step set, a run
/// of well-formed `Point` groups appends exactly one point per group, with
/// timestamps advancing by 3600 seconds from `t0`.
pub proof fn lemma_hourly_points(st: ParserModel, evs: Seq<MarketEvent>, prices: Seq<i64>, t0: i64)
    requires
        is_point_groups(evs, prices),
        !st.in_point,
        st.current_element == Seq::<char>::empty(),
        st.current_timestamp == Some(t0),
        st.step_seconds == Some(HOUR_STEP),
        t0 as int + 3600 * prices.len() <= i64::MAX,
    ensures
        spec_run(st, evs) is Some,
        (spec_run(st, evs)->0).points == st.points + Seq::new(
            prices.len(),
            |i: int| PricePoint { ts: (t0 as int + 3600 * i) as i64, value: prices[i] },
        ),
        (spec_run(st, evs)->0).current_timestamp == Some(
            (t0 as int + 3600 * prices.len()) as i64,
        ),
        (spec_run(st, evs)->0).step_seconds == Some(HOUR_STEP),
        (spec_run(st, evs)->0).in_time_interval == st.in_time_interval,
        !(spec_run(st, evs)->0).in_point,
        (spec_run(st, evs)->0).current_element == Seq::<char>::empty(),
    decreases prices.len(),
{
    lemma_names();
    if prices.len() == 0 {
        assert(spec_run(st, evs) == Some(st));
        assert(st.points + Seq::new(
            0,
            |i: int| PricePoint { ts: (t0 as int + 3600 * i) as i64, value: prices[i] },
        ) =~= st.points);
    } else {
        let g = evs.take(5);
        let rest = evs.skip(5);
        assert(evs =~= g + rest);
        lemma_run_append(st, g, rest);
        let st_a = spec_on_start(st, "Point"@);
        let st_b = spec_on_start(st_a, "price.amount"@);
        let v = prices[0];
        let st_c = ParserModel {
            points: st_b.points.push(PricePoint { ts: t0, value: v }),
            current_timestamp: Some((t0 + 3600) as i64),
            ..st_b
        };
        let st_d = spec_on_end(st_c, "price.amount"@);
        let st_e = spec_on_end(st_d, "Point"@);
        let g1 = g.drop_first();
        let g2 = g1.drop_first();
        let g3 = g2.drop_first();
        let g4 = g3.drop_first();
        assert(g1[0] == g[1] && g2[0] == g[2] && g3[0] == g[3] && g4[0] == g[4]);
        assert(spec_run(st, g) == spec_run(st_a, g1));
        assert(spec_run(st_a, g1) == spec_run(st_b, g2));
        assert(t0.checked_add(HOUR_STEP) == Some((t0 + 3600) as i64));
        assert(spec_on_characters(st_b, (g[2]->Text_0)@) == Some(st_c)) by {
            assert(st_b.in_point);
            assert(st_b.current_element == "price.amount"@);
            assert((st_c.points) =~= st_b.points.push(PricePoint { ts: t0, value: v }));
        }
        assert(spec_run(st_b, g2) == spec_run(st_c, g3));
        assert(spec_run(st_c, g3) == spec_run(st_d, g4));
        assert(g4.drop_first() =~= Seq::<MarketEvent>::empty());
        assert(spec_run(st_d, g4) == spec_run(st_e, g4.drop_first()));
        assert(spec_run(st_e, g4.drop_first()) == Some(st_e));
        lemma_hourly_points(st_e, rest, prices.drop_first(), (t0 + 3600) as i64);
        let tail = Seq::new(
            (prices.len() - 1) as nat,
            |i: int| PricePoint {
                ts: ((t0 + 3600) as i64 as int + 3600 * i) as i64,
                value: prices.drop_first()[i],
            },
        );
        let whole = Seq::new(
            prices.len(),
            |i: int| PricePoint { ts: (t0 as int + 3600 * i) as i64, value: prices[i] },
        );
        assert(st_e.points + tail =~= st.points + whole);
    }
}

/// A valid document: an interval header declaring start `t0` and the hourly
/// resolution, followed by one well-formed `Point` group per price.  The
/// parser emits exactly one point per group, timestamps strictly increasing
/// by 60 minutes from the declared start.
pub proof fn lemma_document_points(evs: Seq<MarketEvent>, prices: Seq<i64>, t0: i64)
    requires
        evs.len() >= 8,
        is_interval_header(evs.take(8), t0),
        is_point_groups(evs.skip(8), prices),
        t0 as int + 3600 * prices.len() <= i64::MAX,
    ensures
        spec_points_of_events(evs) is Some,
        spec_points_of_events(evs)->0 == Seq::new(
            prices.len(),
            |i: int| PricePoint { ts: (t0 as int + 3600 * i) as i64, value: prices[i] },
        ),
        forall|i: int|
            0 <= i < prices.len() ==> (spec_points_of_events(evs)->0)[i].ts == t0 as int + 3600
                * i,
{
    lemma_names();
    let h = evs.take(8);
    let rest = evs.skip(8);
    assert(evs =~= h + rest);
    lemma_run_append(spec_init(), h, rest);
    let st0 = spec_init();
    let st_a = spec_on_start(st0, "timeInterval"@);
    let st_b = spec_on_start(st_a, "start"@);
    let st_c = ParserModel { current_timestamp: Some(t0), ..st_b };
    let st_d = spec_on_end(st_c, "start"@);
    let st_e = spec_on_end(st_d, "timeInterval"@);
    let st_f = spec_on_start(st_e, "resolution"@);
    let st_g = ParserModel { step_seconds: Some(HOUR_STEP), ..st_f };
    let st_h = spec_on_end(st_g, "resolution"@);
    let h1 = h.drop_first();
    let h2 = h1.drop_first();
    let h3 = h2.drop_first();
    let h4 = h3.drop_first();
    let h5 = h4.drop_first();
    let h6 = h5.drop_first();
    let h7 = h6.drop_first();
    assert(h1[0] == h[1] && h2[0] == h[2] && h3[0] == h[3] && h4[0] == h[4] && h5[0] == h[5]
        && h6[0] == h[6] && h7[0] == h[7]);
    assert(spec_run(st0, h) == spec_run(st_a, h1));
    assert(spec_run(st_a, h1) == spec_run(st_b, h2));
    assert(spec_on_characters(st_b, (h[2]->Text_0)@) == Some(st_c)) by {
        assert(st_b.in_time_interval);
        assert(st_b.current_element == "start"@);
    }
    assert(spec_run(st_b, h2) == spec_run(st_c, h3));
    assert(spec_run(st_c, h3) == spec_run(st_d, h4));
    assert(spec_run(st_d, h4) == spec_run(st_e, h5));
    assert(spec_run(st_e, h5) == spec_run(st_f, h6));
    assert(spec_on_characters(st_f, (h[6]->Text_0)@) == Some(st_g)) by {
        assert(!st_f.in_time_interval);
        assert(st_f.current_element == "resolution"@);
    }
    assert(spec_run(st_f, h6) == spec_run(st_g, h7));
    assert(h7.drop_first() =~= Seq::<MarketEvent>::empty());
    assert(spec_run(st_g, h7) == spec_run(st_h, h7.drop_first()));
    assert(spec_run(st_h, h7.drop_first()) == Some(st_h));
    assert(!st_h.in_point);
    assert(st_h.current_element == Seq::<char>::empty());
    assert(st_h.current_timestamp == Some(t0));
    assert(st_h.step_seconds == Some(HOUR_STEP));
    lemma_hourly_points(st_h, rest, prices, t0);
    assert(st_h.points =~= Seq::<PricePoint>::empty());
    assert(st_h.points + Seq::new(
        prices.len(),
        |i: int| PricePoint { ts: (t0 as int + 3600 * i) as i64, value: prices[i] },
    ) =~= Seq::new(
        prices.len(),
        |i: int| PricePoint { ts: (t0 as int + 3600 * i) as i64, value: prices[i] },
    ));
}

} // verus!
