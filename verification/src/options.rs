//! Option translation: from the loosely-typed bag a front end fills in to
//! the strongly-typed options the engine takes.  Unparseable numeric or
//! enumerated fields fall back to the engine's defaults; nothing here fails.

use vstd::prelude::*;
use vstd::string::StrSliceExecFns;
use vstd::string::StringExecFns;
use crate::text::{
    dec_str, dec_val, find_char, is_float_str, is_float_text, is_u64_numeral, join_dec,
    numeral_body, parse_u64, split_once_char, split_seq, split_trim_nonempty,
    split_trim_nonempty_string, trim_seq, trim_str, eq_lower, lower_seq,
};
use crate::types::DownloadOptions;

verus! {

/// Scheduling priority of one transfer.
#[derive(Debug, Clone, Copy, PartialEq, Eq, Structural)]
pub enum Priority {
    Low,
    Normal,
    High,
    Critical,
}

/// Priority named by its token, case-insensitively; anything unrecognised
/// falls back to Normal.
pub open spec fn priority_of_token(s: Seq<char>) -> Priority {
    if lower_seq(s) == "low"@ {
        Priority::Low
    } else if lower_seq(s) == "high"@ {
        Priority::High
    } else if lower_seq(s) == "critical"@ {
        Priority::Critical
    } else {
        Priority::Normal
    }
}

impl Priority {
    pub fn parse(s: &str) -> (r: Priority)
        ensures
            r == priority_of_token(s@),
    {
        if eq_lower(s, "low") {
            Priority::Low
        } else if eq_lower(s, "high") {
            Priority::High
        } else if eq_lower(s, "critical") {
            Priority::Critical
        } else {
            Priority::Normal
        }
    }
}

/// Checksum algorithm a transfer can be verified against.
#[derive(Debug, Clone, Copy, PartialEq, Eq, Structural)]
pub enum ChecksumKind {
    Md5,
    Sha256,
}

/// An expected content checksum: algorithm and its hex digest.
#[derive(Debug, Clone)]
pub struct ExpectedChecksum {
    pub kind: ChecksumKind,
    pub value: String,
}

/// Typed options handed to the engine.
#[derive(Debug, Clone)]
pub struct EngineOptions {
    pub save_dir: Option<String>,
    pub filename: Option<String>,
    pub user_agent: Option<String>,
    pub referer: Option<String>,
    pub headers: Vec<(String, String)>,
    pub cookies: Option<Vec<String>>,
    pub checksum: Option<ExpectedChecksum>,
    pub mirrors: Vec<String>,
    pub priority: Priority,
    pub max_connections: Option<u32>,
    pub max_download_speed: Option<u64>,
    pub max_upload_speed: Option<u64>,
    pub seed_ratio: Option<String>,
    pub selected_files: Option<Vec<usize>>,
    pub sequential: Option<bool>,
}

// ---------------------------------------------------------------------------
// speed strings
// ---------------------------------------------------------------------------

pub open spec fn speed_multiplier(c: char) -> nat {
    if c == 'K' || c == 'k' {
        1024
    } else if c == 'M' || c == 'm' {
        1048576
    } else if c == 'G' || c == 'g' {
        1073741824
    } else {
        1
    }
}

pub open spec fn has_speed_suffix(c: char) -> bool {
    speed_multiplier(c) != 1
}

/// Decimal parse with a fallback: what `u64::from_str(..).ok()` gives.
pub open spec fn numeral_value(s: Seq<char>) -> Option<u64> {
    if is_u64_numeral(numeral_body(s)) {
        Some(dec_val(numeral_body(s)) as u64)
    } else {
        None
    }
}

/// Bytes per second named by a speed string: an optional `K`/`M`/`G` suffix
/// (either case) scales the decimal prefix by powers of 1024.  The value is
/// `None` when the prefix does not parse or the product leaves `u64`.
pub open spec fn speed_of(s: Seq<char>) -> Option<u64> {
    let t = trim_seq(s);
    if t.len() > 0 && has_speed_suffix(t.last()) {
        match numeral_value(t.drop_last()) {
            Some(v) => if v * speed_multiplier(t.last()) <= u64::MAX {
                Some((v * speed_multiplier(t.last())) as u64)
            } else {
                None
            },
            None => None,
        }
    } else {
        numeral_value(t)
    }
}

/// Parse a speed string such as `"1M"` or `"500K"` to bytes per second.
pub fn parse_speed(s: &str) -> (r: Option<u64>)
    ensures
        r == speed_of(s@),
{
    let t = trim_str(s);
    let n = t.unicode_len();
    if n == 0 {
        return parse_u64(t);
    }
    let last = t.get_char(n - 1);
    let mult: u64 = if last == 'K' || last == 'k' {
        1024
    } else if last == 'M' || last == 'm' {
        1048576
    } else if last == 'G' || last == 'g' {
        1073741824
    } else {
        1
    };
    if mult == 1 {
        return parse_u64(t);
    }
    let prefix = t.substring_char(0, n - 1);
    proof {
        assert(prefix@ =~= trim_seq(s@).drop_last());
    }
    match parse_u64(prefix) {
        Some(v) => {
            if v <= u64::MAX / mult {
                proof {
                    assert(v * mult <= u64::MAX) by (nonlinear_arith)
                        requires
                            v <= u64::MAX / mult,
                            mult == 1024 || mult == 1048576 || mult == 1073741824,
                    ;
                }
                Some(v * mult)
            } else {
                proof {
                    assert(v * mult > u64::MAX) by (nonlinear_arith)
                        requires
                            v > u64::MAX / mult,
                            mult == 1024 || mult == 1048576 || mult == 1073741824,
                    ;
                }
                None
            }
        },
        None => None,
    }
}

// ---------------------------------------------------------------------------
// header lines, selected files
// ---------------------------------------------------------------------------

/// Key/value pairs read out of raw header lines: each line is cut at its
/// first colon and both sides trimmed; lines without a colon are dropped.
pub open spec fn header_pairs(lines: Seq<Seq<char>>) -> Seq<(Seq<char>, Seq<char>)>
    decreases lines.len(),
{
    if lines.len() == 0 {
        Seq::empty()
    } else {
        let l = lines.last();
        let k = find_char(l, ':');
        if k >= 0 {
            header_pairs(lines.drop_last()).push(
                (trim_seq(l.take(k)), trim_seq(l.subrange(k + 1, l.len() as int))),
            )
        } else {
            header_pairs(lines.drop_last())
        }
    }
}

fn convert_headers(lines: &Vec<String>) -> (r: Vec<(String, String)>)
    ensures
        r@.map_values(|p: (String, String)| (p.0@, p.1@)) == header_pairs(lines@.map_values(|l: String| l@)),
{
    let ghost lv = lines@.map_values(|l: String| l@);
    let mut out: Vec<(String, String)> = Vec::new();
    proof {
        assert(out@.map_values(|p: (String, String)| (p.0@, p.1@)) =~= header_pairs(lv.take(0)));
    }
    let mut i: usize = 0;
    while i < lines.len()
        invariant
            0 <= i <= lines@.len(),
            lv == lines@.map_values(|l: String| l@),
            out@.map_values(|p: (String, String)| (p.0@, p.1@)) == header_pairs(lv.take(i as int)),
        decreases lines@.len() - i,
    {
        proof {
            assert(lv.take(i as int + 1).drop_last() =~= lv.take(i as int));
            assert(lv.take(i as int + 1).last() == lv[i as int]);
        }
        match split_once_char(lines[i].as_str(), ':') {
            Some((k, v)) => {
                let kt = String::from_str(trim_str(k.as_str()));
                let vt = String::from_str(trim_str(v.as_str()));
                let ghost old_out = out@;
                out.push((kt, vt));
                proof {
                    assert(out@.map_values(|p: (String, String)| (p.0@, p.1@)) =~= old_out
                        .map_values(|p: (String, String)| (p.0@, p.1@)).push((kt@, vt@)));
                }
            },
            None => {},
        }
        i += 1;
    }
    proof {
        assert(lv.take(lv.len() as int) =~= lv);
    }
    out
}

/// Indices read out of a comma-separated list; segments that do not parse
/// as an index are dropped.
pub open spec fn index_list(parts: Seq<Seq<char>>) -> Seq<usize>
    decreases parts.len(),
{
    if parts.len() == 0 {
        Seq::empty()
    } else {
        match numeral_value(parts.last()) {
            Some(v) => if v <= usize::MAX {
                index_list(parts.drop_last()).push(v as usize)
            } else {
                index_list(parts.drop_last())
            },
            None => index_list(parts.drop_last()),
        }
    }
}

pub open spec fn selected_indices(s: Seq<char>) -> Seq<usize> {
    index_list(split_seq(s, ','))
}

pub(crate) fn convert_selected_files(s: &str) -> (r: Vec<usize>)
    ensures
        r@ == selected_indices(s@),
{
    let parts = crate::text::split_string(s, ',');
    let ghost pv = parts@.map_values(|t: String| t@);
    let mut out: Vec<usize> = Vec::new();
    proof {
        assert(out@ =~= index_list(pv.take(0)));
    }
    let mut i: usize = 0;
    while i < parts.len()
        invariant
            0 <= i <= parts@.len(),
            pv == parts@.map_values(|t: String| t@),
            pv == split_seq(s@, ','),
            out@ == index_list(pv.take(i as int)),
        decreases parts@.len() - i,
    {
        proof {
            assert(pv.take(i as int + 1).drop_last() =~= pv.take(i as int));
            assert(pv.take(i as int + 1).last() == pv[i as int]);
        }
        match parse_u64(parts[i].as_str()) {
            Some(v) => {
                if v <= usize::MAX as u64 {
                    out.push(v as usize);
                }
            },
            None => {},
        }
        i += 1;
    }
    proof {
        assert(pv.take(pv.len() as int) =~= pv);
    }
    out
}

pub proof fn lemma_index_list_cons(p: Seq<char>, parts: Seq<Seq<char>>)
    ensures
        index_list(seq![p] + parts) == (match numeral_value(p) {
            Some(v) => if v <= usize::MAX {
                seq![v as usize] + index_list(parts)
            } else {
                index_list(parts)
            },
            None => index_list(parts),
        }),
    decreases parts.len(),
{
    if parts.len() == 0 {
        assert(seq![p] + parts =~= seq![p]);
        assert(seq![p].drop_last() =~= Seq::<Seq<char>>::empty());
        assert(seq![p].last() == p);
        assert(parts =~= Seq::<Seq<char>>::empty());
        match numeral_value(p) {
            Some(v) => {
                if v <= usize::MAX {
                    assert(index_list(seq![p]) == index_list(
                        Seq::<Seq<char>>::empty(),
                    ).push(v as usize));
                    assert(index_list(seq![p]) =~= seq![v as usize] + index_list(parts));
                } else {
                    assert(index_list(seq![p]) =~= index_list(parts));
                }
            },
            None => {
                assert(index_list(seq![p]) =~= index_list(parts));
            },
        }
    } else {
        lemma_index_list_cons(p, parts.drop_last());
        assert((seq![p] + parts).drop_last() =~= seq![p] + parts.drop_last());
        assert((seq![p] + parts).last() == parts.last());
        match numeral_value(p) {
            Some(v) => {
                if v <= usize::MAX {
                    match numeral_value(parts.last()) {
                        Some(w) => {
                            if w <= usize::MAX {
                                assert(index_list(seq![p] + parts) =~= seq![v as usize]
                                    + index_list(parts));
                            } else {
                                assert(index_list(seq![p] + parts) =~= seq![v as usize]
                                    + index_list(parts));
                            }
                        },
                        None => {
                            assert(index_list(seq![p] + parts) =~= seq![v as usize] + index_list(
                                parts,
                            ));
                        },
                    }
                }
            },
            None => {},
        }
    }
}

/// A canonical decimal numeral reads back as its value.
pub proof fn lemma_dec_str_numeral(n: nat)
    requires
        n <= u64::MAX,
    ensures
        numeral_value(dec_str(n)) == Some(n as u64),
        forall|i: int| 0 <= i < dec_str(n).len() ==> #[trigger] dec_str(n)[i] != ',',
{
    crate::text::lemma_dec_str_val(n);
    assert(dec_str(n)[0] != '+');
    assert(numeral_body(dec_str(n)) == dec_str(n));
    assert forall|i: int| 0 <= i < dec_str(n).len() implies #[trigger] dec_str(n)[i] != ',' by {
        assert(crate::text::is_digit(dec_str(n)[i]));
    }
}

/// The comma-separated encoding of a selected-file list reads back as the
/// same list: the round trip through the stored text is the identity.
pub proof fn lemma_selected_files_roundtrip(xs: Seq<usize>)
    ensures
        selected_indices(join_dec(xs)) == xs,
    decreases xs.len(),
{
    if xs.len() == 0 {
        assert(join_dec(xs) =~= Seq::<char>::empty());
        crate::text::lemma_find_char_none(join_dec(xs), ',');
        assert(split_seq(join_dec(xs), ',') =~= seq![Seq::<char>::empty()]);
        assert(seq![Seq::<char>::empty()].drop_last() =~= Seq::<Seq<char>>::empty());
        assert(seq![Seq::<char>::empty()].last() =~= Seq::<char>::empty());
        assert(!is_u64_numeral(numeral_body(Seq::<char>::empty())));
        assert(index_list(split_seq(join_dec(xs), ',')) == index_list(
            Seq::<Seq<char>>::empty(),
        ));
        assert(selected_indices(join_dec(xs)) =~= xs);
    } else if xs.len() == 1 {
        let p = dec_str(xs[0] as nat);
        assert(join_dec(xs) == p);
        lemma_dec_str_numeral(xs[0] as nat);
        crate::text::lemma_find_char_none(p, ',');
        assert(split_seq(p, ',') =~= seq![p]);
        assert(seq![p].drop_last() =~= Seq::<Seq<char>>::empty());
        assert(seq![p].last() == p);
        assert(xs[0] <= usize::MAX);
        assert((xs[0] as nat as u64) as usize == xs[0]);
        assert(index_list(seq![p]) == index_list(Seq::<Seq<char>>::empty()).push(
            ((xs[0] as nat) as u64) as usize,
        ));
        assert(selected_indices(join_dec(xs)) =~= xs);
    } else {
        let p = dec_str(xs[0] as nat);
        let rest = join_dec(xs.drop_first());
        assert(xs.drop_first().len() >= 1);
        assert(join_dec(xs) == p + seq![','] + rest);
        let s = join_dec(xs);
        lemma_dec_str_numeral(xs[0] as nat);
        assert forall|k: int| 0 <= k < p.len() implies #[trigger] s[k] != ',' by {
            assert(s[k] == p[k]);
        }
        assert(s[p.len() as int] == ',');
        crate::text::lemma_find_char_at(s, ',', p.len() as int);
        assert(s.take(p.len() as int) =~= p);
        assert(s.subrange(p.len() as int + 1, s.len() as int) =~= rest);
        assert(split_seq(s, ',') == seq![p] + split_seq(rest, ','));
        lemma_index_list_cons(p, split_seq(rest, ','));
        lemma_selected_files_roundtrip(xs.drop_first());
        assert(xs[0] <= usize::MAX);
        assert((xs[0] as nat as u64) as usize == xs[0]);
        assert(selected_indices(s) =~= seq![xs[0]] + xs.drop_first());
        assert(seq![xs[0]] + xs.drop_first() =~= xs);
    }
}

// ---------------------------------------------------------------------------
// the whole bag
// ---------------------------------------------------------------------------

pub open spec fn checksum_kind_of(s: Seq<char>) -> Option<ChecksumKind> {
    if lower_seq(s) == "md5"@ {
        Some(ChecksumKind::Md5)
    } else if lower_seq(s) == "sha256"@ {
        Some(ChecksumKind::Sha256)
    } else {
        None
    }
}

/// Translate a front-end option bag into typed engine options.
///
/// Never fails: numeric and enumerated fields that do not parse fall back
/// to the engine defaults (`None`, or Normal priority) — the seed ratio is
/// kept only when its text matches the number grammar the engine parses —
/// malformed header lines are dropped, cookie segments are trimmed and
/// empty ones removed.
pub fn convert_options(opts: DownloadOptions) -> (r: EngineOptions)
    ensures
        r.save_dir == opts.dir,
        r.filename == opts.out,
        r.user_agent == opts.user_agent,
        r.referer == opts.referer,
        (match opts.header {
            Some(lines) => r.headers@.map_values(|p: (String, String)| (p.0@, p.1@))
                == header_pairs(lines@.map_values(|l: String| l@)),
            None => r.headers@.len() == 0,
        }),
        (match opts.cookies {
            Some(c) => r.cookies is Some && r.cookies->Some_0@.map_values(|t: String| t@)
                == split_trim_nonempty(c@, ';'),
            None => r.cookies is None,
        }),
        (match (opts.checksum_type, opts.checksum_value) {
            (Some(t), Some(v)) => (match checksum_kind_of(t@) {
                Some(k) => r.checksum is Some && r.checksum->Some_0.kind == k
                    && r.checksum->Some_0.value == v,
                None => r.checksum is None,
            }),
            _ => r.checksum is None,
        }),
        (match opts.mirror_urls {
            Some(m) => r.mirrors == m,
            None => r.mirrors@.len() == 0,
        }),
        (match opts.priority {
            Some(p) => r.priority == priority_of_token(p@),
            None => r.priority == Priority::Normal,
        }),
        (match opts.max_connection_per_server {
            Some(s) => r.max_connections == (match numeral_value(s@) {
                Some(v) => if v <= u32::MAX { Some(v as u32) } else { None::<u32> },
                None => None::<u32>,
            }),
            None => r.max_connections is None,
        }),
        (match opts.max_download_limit {
            Some(s) => r.max_download_speed == speed_of(s@),
            None => r.max_download_speed is None,
        }),
        (match opts.max_upload_limit {
            Some(s) => r.max_upload_speed == speed_of(s@),
            None => r.max_upload_speed is None,
        }),
        (match opts.seed_ratio {
            Some(t) => r.seed_ratio == (if is_float_text(t@) {
                Some(t)
            } else {
                None::<String>
            }),
            None => r.seed_ratio is None,
        }),
        (match opts.select_file {
            Some(s) => r.selected_files is Some && r.selected_files->Some_0@
                == selected_indices(s@),
            None => r.selected_files is None,
        }),
        r.sequential == opts.sequential,
{
    let headers = match &opts.header {
        Some(lines) => convert_headers(lines),
        None => Vec::new(),
    };
    let cookies = match &opts.cookies {
        Some(c) => Some(split_trim_nonempty_string(c.as_str(), ';')),
        None => None,
    };
    let checksum = match (opts.checksum_type, opts.checksum_value) {
        (Some(t), Some(v)) => {
            if eq_lower(t.as_str(), "md5") {
                Some(ExpectedChecksum { kind: ChecksumKind::Md5, value: v })
            } else if eq_lower(t.as_str(), "sha256") {
                Some(ExpectedChecksum { kind: ChecksumKind::Sha256, value: v })
            } else {
                None
            }
        },
        _ => None,
    };
    let priority = match &opts.priority {
        Some(p) => Priority::parse(p.as_str()),
        None => Priority::Normal,
    };
    let max_connections = match &opts.max_connection_per_server {
        Some(s) => match parse_u64(s.as_str()) {
            Some(v) => if v <= u32::MAX as u64 {
                Some(v as u32)
            } else {
                None
            },
            None => None,
        },
        None => None,
    };
    let max_download_speed = match &opts.max_download_limit {
        Some(s) => parse_speed(s.as_str()),
        None => None,
    };
    let max_upload_speed = match &opts.max_upload_limit {
        Some(s) => parse_speed(s.as_str()),
        None => None,
    };
    let selected_files = match &opts.select_file {
        Some(s) => Some(convert_selected_files(s.as_str())),
        None => None,
    };
    let mirrors = match opts.mirror_urls {
        Some(m) => m,
        None => Vec::new(),
    };
    let seed_ratio = match opts.seed_ratio {
        Some(t) => {
            if is_float_str(t.as_str()) {
                Some(t)
            } else {
                None
            }
        },
        None => None,
    };
    EngineOptions {
        save_dir: opts.dir,
        filename: opts.out,
        user_agent: opts.user_agent,
        referer: opts.referer,
        headers,
        cookies,
        checksum,
        mirrors,
        priority,
        max_connections,
        max_download_speed,
        max_upload_speed,
        seed_ratio,
        selected_files,
        sequential: opts.sequential,
    }
}

} // verus!
