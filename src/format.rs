use vstd::prelude::*;
use vstd::string::*;
use crate::text::{decimal, decimal_string};

verus! {

/// Beyond this many seconds a remaining time is only "a very long time".
pub const LONG_WAIT_SECS: u64 = 2592000;

/// A remaining time in words: the two largest units that apply, the smaller one left out
/// when zero; nothing for zero.
pub open spec fn duration_text(s: u64) -> Seq<char> {
    if s == 0 {
        Seq::empty()
    } else if s > LONG_WAIT_SECS {
        "很久很久"@
    } else if s >= 86400 {
        let d = s / 86400;
        let h = (s % 86400) / 3600;
        if h > 0 {
            decimal(d as nat) + "天"@ + decimal(h as nat) + "小时"@
        } else {
            decimal(d as nat) + "天"@
        }
    } else if s >= 3600 {
        let h = s / 3600;
        let m = (s % 3600) / 60;
        if m > 0 {
            decimal(h as nat) + "小时"@ + decimal(m as nat) + "分钟"@
        } else {
            decimal(h as nat) + "小时"@
        }
    } else if s >= 60 {
        let m = s / 60;
        let r = s % 60;
        if r > 0 {
            decimal(m as nat) + "分钟"@ + decimal(r as nat) + "秒"@
        } else {
            decimal(m as nat) + "分钟"@
        }
    } else {
        decimal(s as nat) + "秒"@
    }
}

fn two_units(a: u64, unit_a: &str, b: u64, unit_b: &str) -> (r: String)
    ensures
        r@ == if b > 0 {
            decimal(a as nat) + unit_a@ + decimal(b as nat) + unit_b@
        } else {
            decimal(a as nat) + unit_a@
        },
{
    let mut r = decimal_string(a);
    r.append(unit_a);
    if b > 0 {
        let tail = decimal_string(b);
        r.append(tail.as_str());
        r.append(unit_b);
    }
    r
}

/// A remaining time in words; see [`duration_text`].
pub fn format_duration(seconds: u64) -> (r: String)
    ensures
        r@ == duration_text(seconds),
{
    proof {
        reveal_strlit("很久很久");
        reveal_strlit("天");
        reveal_strlit("小时");
        reveal_strlit("分钟");
        reveal_strlit("秒");
    }
    if seconds == 0 {
        String::new()
    } else if seconds > LONG_WAIT_SECS {
        String::from_str("很久很久")
    } else if seconds >= 86400 {
        two_units(seconds / 86400, "天", (seconds % 86400) / 3600, "小时")
    } else if seconds >= 3600 {
        two_units(seconds / 3600, "小时", (seconds % 3600) / 60, "分钟")
    } else if seconds >= 60 {
        two_units(seconds / 60, "分钟", seconds % 60, "秒")
    } else {
        let mut r = decimal_string(seconds);
        r.append("秒");
        r
    }
}

} // verus!
