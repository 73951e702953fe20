//! Human-readable formatting of sizes, rates and remaining time, in pure
//! integer arithmetic: quantities are scaled to hundredths and rounded half
//! up.

use vstd::prelude::*;
use vstd::string::StringExecFns;
use crate::text::{dec_str, u64_to_string};

verus! {

pub const KB: u64 = 1024;
pub const MB: u64 = 1048576;
pub const GB: u64 = 1073741824;
pub const TB: u64 = 1099511627776;

/// Whole units and rounded hundredths of `b` measured in `u`, with the
/// round-up carry folded into the whole part.
pub open spec fn scaled_parts(b: nat, u: nat) -> (nat, nat) {
    let ip = b / u;
    let fr = ((b % u) * 100 + u / 2) / u;
    if fr >= 100 {
        ((ip + 1) as nat, 0nat)
    } else {
        (ip, fr)
    }
}

/// `12.05`-style rendering: whole part, a dot, exactly two fraction digits.
pub open spec fn two_dec(parts: (nat, nat)) -> Seq<char> {
    if parts.1 < 10 {
        dec_str(parts.0) + "."@ + "0"@ + dec_str(parts.1)
    } else {
        dec_str(parts.0) + "."@ + dec_str(parts.1)
    }
}

/// A byte count in the largest unit it reaches, with two decimals; plain
/// bytes below one kibibyte.
pub open spec fn bytes_text(bytes: u64) -> Seq<char> {
    if bytes >= TB {
        two_dec(scaled_parts(bytes as nat, TB as nat)) + " TB"@
    } else if bytes >= GB {
        two_dec(scaled_parts(bytes as nat, GB as nat)) + " GB"@
    } else if bytes >= MB {
        two_dec(scaled_parts(bytes as nat, MB as nat)) + " MB"@
    } else if bytes >= KB {
        two_dec(scaled_parts(bytes as nat, KB as nat)) + " KB"@
    } else {
        dec_str(bytes as nat) + " B"@
    }
}

fn two_dec_string(b: u64, u: u64) -> (r: String)
    requires
        1024 <= u,
        u == 1024 || u == 1048576 || u == 1073741824 || u == 1099511627776,
    ensures
        r@ == two_dec(scaled_parts(b as nat, u as nat)),
{
    let ip: u64 = b / u;
    let rem: u64 = b % u;
    proof {
        assert(rem < u);
        assert(rem as int * 100 + u as int / 2 < u64::MAX) by (nonlinear_arith)
            requires
                rem < u,
                u <= 1099511627776u64,
        ;
        assert((rem as int * 100 + u as int / 2) / u as int <= 100) by (nonlinear_arith)
            requires
                rem < u,
                1024 <= u,
        ;
    }
    let fr: u64 = (rem * 100 + u / 2) / u;
    let (ip, fr): (u64, u64) = if fr >= 100 {
        proof {
            assert(b / u < u64::MAX) by (nonlinear_arith)
                requires
                    1024 <= u,
                    b <= u64::MAX,
                    ip == b / u,
            ;
        }
        (ip + 1, 0)
    } else {
        (ip, fr)
    };
    let mut out = u64_to_string(ip);
    out.append(".");
    if fr < 10 {
        out.append("0");
    }
    let frs = u64_to_string(fr);
    out.append(frs.as_str());
    proof {
        reveal_strlit(".");
        reveal_strlit("0");
        assert(out@ =~= two_dec(scaled_parts(b as nat, u as nat)));
    }
    out
}

/// Format a byte count for display.
pub fn format_bytes(bytes: u64) -> (r: String)
    ensures
        r@ == bytes_text(bytes),
{
    if bytes >= TB {
        let mut out = two_dec_string(bytes, TB);
        out.append(" TB");
        proof {
            reveal_strlit(" TB");
            assert(out@ =~= bytes_text(bytes));
        }
        out
    } else if bytes >= GB {
        let mut out = two_dec_string(bytes, GB);
        out.append(" GB");
        proof {
            reveal_strlit(" GB");
            assert(out@ =~= bytes_text(bytes));
        }
        out
    } else if bytes >= MB {
        let mut out = two_dec_string(bytes, MB);
        out.append(" MB");
        proof {
            reveal_strlit(" MB");
            assert(out@ =~= bytes_text(bytes));
        }
        out
    } else if bytes >= KB {
        let mut out = two_dec_string(bytes, KB);
        out.append(" KB");
        proof {
            reveal_strlit(" KB");
            assert(out@ =~= bytes_text(bytes));
        }
        out
    } else {
        let mut out = u64_to_string(bytes);
        out.append(" B");
        proof {
            reveal_strlit(" B");
            assert(out@ =~= bytes_text(bytes));
        }
        out
    }
}

/// A transfer rate for display.
pub open spec fn speed_text(bytes_per_sec: u64) -> Seq<char> {
    if bytes_per_sec == 0 {
        "0 B/s"@
    } else {
        bytes_text(bytes_per_sec) + "/s"@
    }
}

pub fn format_speed(bytes_per_sec: u64) -> (r: String)
    ensures
        r@ == speed_text(bytes_per_sec),
{
    if bytes_per_sec == 0 {
        return String::from_str("0 B/s");
    }
    let mut out = format_bytes(bytes_per_sec);
    out.append("/s");
    proof {
        reveal_strlit("/s");
        assert(out@ =~= speed_text(bytes_per_sec));
    }
    out
}

/// Remaining time at the current rate, in the two largest applicable units;
/// `--` when it cannot be estimated.
pub open spec fn eta_text(remaining: u64, speed: u64) -> Seq<char> {
    if speed == 0 || remaining == 0 {
        "--"@
    } else {
        let seconds = remaining as nat / speed as nat;
        let minutes = seconds / 60;
        let hours = minutes / 60;
        let days = hours / 24;
        if days > 0 {
            dec_str(days) + "d "@ + dec_str(hours % 24) + "h"@
        } else if hours > 0 {
            dec_str(hours) + "h "@ + dec_str(minutes % 60) + "m"@
        } else if minutes > 0 {
            dec_str(minutes) + "m "@ + dec_str(seconds % 60) + "s"@
        } else {
            dec_str(seconds) + "s"@
        }
    }
}

/// Estimate time to completion from the remaining byte count and the rate.
pub fn format_eta(remaining: u64, speed: u64) -> (r: String)
    ensures
        r@ == eta_text(remaining, speed),
{
    if speed == 0 || remaining == 0 {
        return String::from_str("--");
    }
    let seconds: u64 = remaining / speed;
    let minutes: u64 = seconds / 60;
    let hours: u64 = minutes / 60;
    let days: u64 = hours / 24;
    if days > 0 {
        let mut out = u64_to_string(days);
        out.append("d ");
        let h = u64_to_string(hours % 24);
        out.append(h.as_str());
        out.append("h");
        proof {
            reveal_strlit("d ");
            reveal_strlit("h");
            assert(out@ =~= eta_text(remaining, speed));
        }
        out
    } else if hours > 0 {
        let mut out = u64_to_string(hours);
        out.append("h ");
        let m = u64_to_string(minutes % 60);
        out.append(m.as_str());
        out.append("m");
        proof {
            reveal_strlit("h ");
            reveal_strlit("m");
            assert(out@ =~= eta_text(remaining, speed));
        }
        out
    } else if minutes > 0 {
        let mut out = u64_to_string(minutes);
        out.append("m ");
        let s = u64_to_string(seconds % 60);
        out.append(s.as_str());
        out.append("s");
        proof {
            reveal_strlit("m ");
            reveal_strlit("s");
            assert(out@ =~= eta_text(remaining, speed));
        }
        out
    } else {
        let mut out = u64_to_string(seconds);
        out.append("s");
        proof {
            reveal_strlit("s");
            assert(out@ =~= eta_text(remaining, speed));
        }
        out
    }
}

/// Fraction of a transfer that is done, in hundredths of a percent.
///
/// `0` when the total size is still unknown; capped at `10000` when the
/// completed count overshoots the total.
pub fn progress_permyriad(completed: u64, total: u64) -> (r: u16)
    ensures
        total == 0 ==> r == 0,
        total > 0 ==> r == if completed >= total { 10000int } else { completed as int * 10000 / total as int },
{
    if total == 0 {
        0
    } else if completed >= total {
        10000
    } else {
        let wide: u128 = (completed as u128) * 10000 / (total as u128);
        assert(wide == completed as int * 10000 / total as int && wide < 10000) by (nonlinear_arith)
            requires
                completed < total,
                total > 0,
                wide == (completed as u128) as int * 10000 / (total as u128) as int;
        wide as u16
    }
}

} // verus!
