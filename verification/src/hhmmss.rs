//! Rendering of durations as `hh:mm:ss` and `hh:mm:ss.xxx` texts, and the
//! `Elapsed` wall-clock measurement they are rendered from.
use crate::numfmt::{dec_rep, fmt_int_pad, i64_pad, u64_pad, zero_pad};
use vstd::prelude::*;

verus! {

/// How a second count renders as `hh:mm:ss`: a `'-'` for a negative count,
/// then hours, minutes and seconds of the magnitude, each zero-padded to two
/// digits.
pub open spec fn s2hhmmss_spec(s: int) -> Seq<char> {
    let a = if s < 0 {
        -s
    } else {
        s
    };
    (if s < 0 {
        seq!['-']
    } else {
        Seq::<char>::empty()
    }) + fmt_int_pad(a / 3600, 2) + seq![':'] + fmt_int_pad((a % 3600) / 60, 2) + seq![':']
        + fmt_int_pad((a % 3600) % 60, 2)
}

/// How a second count and a millisecond count render as `hh:mm:ss.xxx`: when
/// the second count is negative both counts are negated, and the millisecond
/// part renders zero-padded to three characters with its own sign.
pub open spec fn sms2hhmmsxxx_spec(s: int, ms: int) -> Seq<char> {
    let a = if s < 0 {
        -s
    } else {
        s
    };
    let m = if s < 0 {
        -ms
    } else {
        ms
    };
    (if s < 0 {
        seq!['-']
    } else {
        Seq::<char>::empty()
    }) + fmt_int_pad(a / 3600, 2) + seq![':'] + fmt_int_pad((a % 3600) / 60, 2) + seq![':']
        + fmt_int_pad((a % 3600) % 60, 2) + seq!['.'] + fmt_int_pad(m, 3)
}

/// Render a second count as `hh:mm:ss`.
pub fn _s2hhmmss(s: i64) -> (r: String)
    requires
        s != i64::MIN,
    ensures
        r@ == s2hhmmss_spec(s as int),
{
    let neg = s < 0;
    let a: u64 = if neg {
        (-s) as u64
    } else {
        s as u64
    };
    let h = a / 3600;
    let rem = a % 3600;
    let m = rem / 60;
    let sec = rem % 60;
    proof {
        reveal_strlit("-");
        reveal_strlit(":");
    }
    let mut r = String::new();
    if neg {
        r.append("-");
    }
    r.append(u64_pad(h, 2).as_str());
    r.append(":");
    r.append(u64_pad(m, 2).as_str());
    r.append(":");
    r.append(u64_pad(sec, 2).as_str());
    proof {
        assert(r@ =~= s2hhmmss_spec(s as int));
    }
    r
}

/// Render a second count and a millisecond count as `hh:mm:ss.xxx`.
pub fn sms2hhmmsxxx(s: i64, ms: i64) -> (r: String)
    requires
        s != i64::MIN,
        ms != i64::MIN,
    ensures
        r@ == sms2hhmmsxxx_spec(s as int, ms as int),
{
    let neg = s < 0;
    let a: u64 = if neg {
        (-s) as u64
    } else {
        s as u64
    };
    let m2: i64 = if neg {
        -ms
    } else {
        ms
    };
    let h = a / 3600;
    let rem = a % 3600;
    let m = rem / 60;
    let sec = rem % 60;
    proof {
        reveal_strlit("-");
        reveal_strlit(":");
        reveal_strlit(".");
    }
    let mut r = String::new();
    if neg {
        r.append("-");
    }
    r.append(u64_pad(h, 2).as_str());
    r.append(":");
    r.append(u64_pad(m, 2).as_str());
    r.append(":");
    r.append(u64_pad(sec, 2).as_str());
    r.append(".");
    r.append(i64_pad(m2, 3).as_str());
    proof {
        assert(r@ =~= sms2hhmmsxxx_spec(s as int, ms as int));
    }
    r
}

/// A value with a whole-second and a millisecond reading, renderable as
/// `hh:mm:ss` or `hh:mm:ss.xxx`.
pub trait Hhmmss {
    /// When the value is meaningful enough to read.
    spec fn inv(&self) -> bool;

    /// The second and millisecond reading, as unbounded integers.
    spec fn sms_spec(&self) -> (int, int);

    /// The whole seconds and the milliseconds of the subsecond remainder.
    fn sms(&self) -> (r: (i64, i64))
        requires
            self.inv(),
        ensures
            r.0 as int == self.sms_spec().0,
            r.1 as int == self.sms_spec().1,
            r.0 > i64::MIN,
            r.1 > i64::MIN,
    ;

    /// The whole-second reading rendered as `hh:mm:ss`.
    fn _hhmmss(&self) -> (r: String)
        requires
            self.inv(),
        ensures
            r@ == s2hhmmss_spec(self.sms_spec().0),
    {
        let (s, _) = self.sms();
        _s2hhmmss(s)
    }

    /// The reading rendered as `hh:mm:ss.xxx`.
    fn hhmmssxxx(&self) -> (r: String)
        requires
            self.inv(),
        ensures
            r@ == sms2hhmmsxxx_spec(self.sms_spec().0, self.sms_spec().1),
    {
        let (s, ms) = self.sms();
        sms2hhmmsxxx(s, ms)
    }
}

/// A measured wall-clock duration: whole seconds plus the milliseconds of the
/// subsecond remainder.
#[derive(Clone, Copy, Debug, PartialEq, Eq, Structural)]
pub struct Elapsed {
    pub secs: u64,
    pub millis: u32,
}

impl Elapsed {
    /// A well-formed measurement: a true subsecond remainder, and few enough
    /// seconds that the total millisecond count fits in a machine word.
    pub open spec fn wf(&self) -> bool {
        self.millis < 1000 && self.secs <= (u64::MAX - 999) / 1000
    }

    pub fn from_parts(secs: u64, millis: u32) -> (r: Elapsed)
        requires
            millis < 1000,
            secs <= (u64::MAX - 999) / 1000,
        ensures
            r.wf(),
            r.secs == secs,
            r.millis == millis,
    {
        Elapsed { secs, millis }
    }

    /// The whole measurement in milliseconds.
    pub fn total_millis(&self) -> (r: u64)
        requires
            self.wf(),
        ensures
            r == self.secs * 1000 + self.millis,
    {
        self.secs * 1000 + (self.millis as u64)
    }
}

impl Hhmmss for Elapsed {
    open spec fn inv(&self) -> bool {
        self.wf()
    }

    open spec fn sms_spec(&self) -> (int, int) {
        (self.secs as int, self.millis as int)
    }

    fn sms(&self) -> (r: (i64, i64)) {
        (self.secs as i64, self.millis as i64)
    }
}

} // verus!
