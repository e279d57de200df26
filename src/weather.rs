//! The weather slot: a day's hourly forecasts summarised into rain chance
//! and temperature range, and the countdown that decides when to fetch anew.

use vstd::prelude::*;
use vstd::string::StringExecFns;

use crate::text::{idec, push_int};

verus! {

/// Ticks between two fetches after a good one.
pub const REFRESH_TICKS: i64 = 14400;

/// Ticks before the next try after a fetch that brought nothing.
pub const RETRY_TICKS: i64 = 3600;

/// Ticks before the next try when the first fetch brought nothing.
pub const FIRST_RETRY_TICKS: i64 = 60;

/// One hour of a day's forecast; `time` is written as hours times 100
/// (`900` is nine o'clock).
#[derive(Clone, Copy, Debug, PartialEq, Eq, Structural)]
pub struct HourlyForecast {
    pub time: i32,
    pub temp_c: i32,
    pub chance_of_rain: i32,
    pub chance_of_snow: i32,
}

/// What the slot shows: the highest chance of rain or snow and the
/// temperature range over the daytime hours.
#[derive(Clone, Copy, Debug, PartialEq, Eq, Structural)]
pub struct WeatherData {
    pub rain: i32,
    pub min_temp: i32,
    pub max_temp: i32,
}

/// Daytime runs from nine in the morning to nine in the evening.
pub open spec fn in_daytime(h: HourlyForecast) -> bool {
    900 <= h.time <= 2100
}

pub open spec fn has_daytime(hours: Seq<HourlyForecast>) -> bool {
    exists|k: int| 0 <= k < hours.len() && in_daytime(#[trigger] hours[k])
}

/// `d` summarises the daytime hours: its temperatures are the least and
/// the greatest daytime temperature, its rain the greatest daytime chance
/// of rain or snow.
pub open spec fn summarises(hours: Seq<HourlyForecast>, d: WeatherData) -> bool {
    &&& exists|k: int|
        0 <= k < hours.len() && in_daytime(#[trigger] hours[k]) && hours[k].temp_c == d.min_temp
    &&& exists|k: int|
        0 <= k < hours.len() && in_daytime(#[trigger] hours[k]) && hours[k].temp_c == d.max_temp
    &&& exists|k: int|
        0 <= k < hours.len() && in_daytime(#[trigger] hours[k]) && (hours[k].chance_of_rain
            == d.rain || hours[k].chance_of_snow == d.rain)
    &&& forall|k: int|
        0 <= k < hours.len() && in_daytime(#[trigger] hours[k]) ==> d.min_temp <= hours[k].temp_c
            <= d.max_temp && hours[k].chance_of_rain <= d.rain && hours[k].chance_of_snow <= d.rain
}

/// Summarises the daytime hours of a day; `None` when no hour of it falls
/// in daytime.
pub fn summarize_day(hours: &Vec<HourlyForecast>) -> (r: Option<WeatherData>)
    ensures
        r is None <==> !has_daytime(hours@),
        r matches Some(d) ==> summarises(hours@, d),
{
    let mut acc: Option<WeatherData> = None;
    let mut i: usize = 0;
    while i < hours.len()
        invariant
            i <= hours@.len(),
            acc is None <==> !has_daytime(hours@.take(i as int)),
            acc matches Some(d) ==> summarises(hours@.take(i as int), d),
        decreases hours@.len() - i,
    {
        let h = hours[i];
        let ghost pre = hours@.take(i as int);
        let ghost post = hours@.take(i + 1);
        proof {
            assert(post =~= pre.push(h));
            assert forall|k: int| 0 <= k < pre.len() implies post[k] == pre[k] by {}
        }
        if 900 <= h.time && h.time <= 2100 {
            let wet = if h.chance_of_rain >= h.chance_of_snow {
                h.chance_of_rain
            } else {
                h.chance_of_snow
            };
            let next = match acc {
                None => WeatherData { rain: wet, min_temp: h.temp_c, max_temp: h.temp_c },
                Some(d) => WeatherData {
                    rain: if wet > d.rain { wet } else { d.rain },
                    min_temp: if h.temp_c < d.min_temp { h.temp_c } else { d.min_temp },
                    max_temp: if h.temp_c > d.max_temp { h.temp_c } else { d.max_temp },
                },
            };
            proof {
                assert(in_daytime(post[i as int]));
                match acc {
                    None => {
                        assert forall|k: int| 0 <= k < post.len() && in_daytime(#[trigger] post[k])
                            implies k == i by {
                            if k < i {
                                assert(in_daytime(pre[k]));
                            }
                        }
                    },
                    Some(d) => {
                        let k1 = choose|k: int|
                            0 <= k < pre.len() && in_daytime(#[trigger] pre[k]) && pre[k].temp_c
                                == d.min_temp;
                        let k2 = choose|k: int|
                            0 <= k < pre.len() && in_daytime(#[trigger] pre[k]) && pre[k].temp_c
                                == d.max_temp;
                        let k3 = choose|k: int|
                            0 <= k < pre.len() && in_daytime(#[trigger] pre[k]) && (
                            pre[k].chance_of_rain == d.rain || pre[k].chance_of_snow == d.rain);
                        assert(post[k1] == pre[k1] && post[k2] == pre[k2] && post[k3] == pre[k3]);
                        assert(in_daytime(post[k1]) && in_daytime(post[k2]) && in_daytime(
                            post[k3],
                        ));
                        assert forall|k: int|
                            0 <= k < post.len() && in_daytime(#[trigger] post[k]) implies next.min_temp
                            <= post[k].temp_c <= next.max_temp && post[k].chance_of_rain
                            <= next.rain && post[k].chance_of_snow <= next.rain by {
                            if k < i {
                                assert(in_daytime(pre[k]));
                            }
                        }
                    },
                }
                assert(has_daytime(post));
                assert(summarises(post, next));
            }
            acc = Some(next);
        } else {
            proof {
                if has_daytime(post) {
                    let k = choose|k: int| 0 <= k < post.len() && in_daytime(#[trigger] post[k]);
                    assert(k < i);
                    assert(in_daytime(pre[k]));
                }
                if has_daytime(pre) {
                    let k = choose|k: int| 0 <= k < pre.len() && in_daytime(#[trigger] pre[k]);
                    assert(in_daytime(post[k]));
                }
                match acc {
                    Some(d) => {
                        let k1 = choose|k: int|
                            0 <= k < pre.len() && in_daytime(#[trigger] pre[k]) && pre[k].temp_c
                                == d.min_temp;
                        let k2 = choose|k: int|
                            0 <= k < pre.len() && in_daytime(#[trigger] pre[k]) && pre[k].temp_c
                                == d.max_temp;
                        let k3 = choose|k: int|
                            0 <= k < pre.len() && in_daytime(#[trigger] pre[k]) && (pre[k].chance_of_rain
                                == d.rain || pre[k].chance_of_snow == d.rain);
                        assert(in_daytime(post[k1]) && in_daytime(post[k2]) && in_daytime(post[k3]));
                        assert forall|k: int|
                            0 <= k < post.len() && in_daytime(#[trigger] post[k]) implies d.min_temp
                            <= post[k].temp_c <= d.max_temp && post[k].chance_of_rain <= d.rain
                            && post[k].chance_of_snow <= d.rain by {
                            assert(k < i);
                            assert(in_daytime(pre[k]));
                        }
                    },
                    None => {},
                }
            }
        }
        i = i + 1;
    }
    proof {
        assert(hours@.take(i as int) =~= hours@);
    }
    acc
}

/// The forecast summary of the first day of a report; `None` when the
/// report has no day or its first day no daytime hour.
pub fn summarize_report(days: &Vec<Vec<HourlyForecast>>) -> (r: Option<WeatherData>)
    ensures
        days@.len() == 0 ==> (r is None),
        days@.len() > 0 ==> (r is None <==> !has_daytime(days@[0]@)),
        r matches Some(d) ==> days@.len() > 0 && summarises(days@[0]@, d),
{
    if days.len() == 0 {
        None
    } else {
        summarize_day(&days[0])
    }
}

/// What the slot shows for a summary.
pub open spec fn weather_text_of(d: WeatherData) -> Seq<char> {
    "☂️ "@ + idec(d.rain as int) + "% ❄ "@ + idec(d.min_temp as int) + "° ☀️ "@ + idec(
        d.max_temp as int,
    ) + "°"@
}

/// The slot's text for a summary.
pub fn weather_text(d: WeatherData) -> (r: String)
    ensures
        r@ == weather_text_of(d),
{
    let mut s = String::from_str("☂️ ");
    push_int(&mut s, d.rain as i64);
    s.append("% ❄ ");
    push_int(&mut s, d.min_temp as i64);
    s.append("° ☀️ ");
    push_int(&mut s, d.max_temp as i64);
    s.append("°");
    s
}

/// The weather slot's state between fetches: the last good summary and the
/// ticks left until the next fetch.
pub struct WeatherState {
    data: Option<WeatherData>,
    countdown: i64,
}

impl WeatherState {
    /// The last good summary.
    pub closed spec fn data_view(&self) -> Option<WeatherData> {
        self.data
    }

    /// Ticks left until the next fetch.
    pub closed spec fn countdown_view(&self) -> int {
        self.countdown as int
    }

    /// The state after the first fetch: a good fetch waits the full period,
    /// a failed one tries again soon.
    pub fn new(first: Option<WeatherData>) -> (r: WeatherState)
        ensures
            r.data_view() == first,
            r.countdown_view() == if first is Some {
                REFRESH_TICKS as int
            } else {
                FIRST_RETRY_TICKS as int
            },
    {
        let countdown = if first.is_some() { REFRESH_TICKS } else { FIRST_RETRY_TICKS };
        WeatherState { data: first, countdown }
    }

    /// Counts one tick down; returns whether a fetch is due now.
    pub fn tick(&mut self) -> (due: bool)
        requires
            old(self).countdown_view() > i64::MIN,
        ensures
            final(self).countdown_view() == old(self).countdown_view() - 1,
            final(self).data_view() == old(self).data_view(),
            due == (final(self).countdown_view() == 0),
    {
        self.countdown = self.countdown - 1;
        self.countdown == 0
    }

    /// Takes in what a fetch brought: a summary replaces the old one and
    /// waits the full period; nothing keeps the old one and tries again in
    /// an hour.
    pub fn fetched(&mut self, got: Option<WeatherData>)
        ensures
            final(self).data_view() == if got is Some {
                got
            } else {
                old(self).data_view()
            },
            final(self).countdown_view() == if got is Some {
                REFRESH_TICKS as int
            } else {
                RETRY_TICKS as int
            },
    {
        match got {
            Some(d) => {
                self.data = Some(d);
                self.countdown = REFRESH_TICKS;
            },
            None => {
                self.countdown = RETRY_TICKS;
            },
        }
    }

    /// Ticks left until the next fetch.
    pub fn countdown(&self) -> (r: i64)
        ensures
            r as int == self.countdown_view(),
    {
        self.countdown
    }

    /// The last good summary.
    pub fn data(&self) -> (r: Option<WeatherData>)
        ensures
            r == self.data_view(),
    {
        self.data
    }

    /// The slot's text: nothing until a fetch has brought a summary.
    pub fn text(&self) -> (r: Option<String>)
        ensures
            match self.data_view() {
                Some(d) => r matches Some(t) && t@ == weather_text_of(d),
                None => r is None,
            },
    {
        match self.data {
            Some(d) => Some(weather_text(d)),
            None => None,
        }
    }
}

} // verus!
