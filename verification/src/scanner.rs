//! Kernel log scanner: pattern-matches captured kernel-log text against a
//! fixed set of suspicious substrings, extracts per-device record lines,
//! and classifies the outcome. The capability that captures the log (an
//! external command on Linux) stays with the caller; this module only
//! analyzes the text it was handed.
use vstd::prelude::*;
use crate::textscan::{
    has_substr, has_substr_ci, spec_lines, split_prefix, split_lines, str_eq, str_has, str_has_ci,
    str_split_prefix, views_of,
};

verus! {

broadcast use vstd::string::group_string_axioms;

/// The views of a vector of owned strings.
pub open spec fn views_of_strings(v: Seq<String>) -> Seq<Seq<char>> {
    Seq::new(v.len(), |j: int| v[j]@)
}

/// The views of a vector of key/line records.
pub open spec fn views_of_records(v: Seq<(String, String)>) -> Seq<(Seq<char>, Seq<char>)> {
    Seq::new(v.len(), |j: int| (v[j].0@, v[j].1@))
}

/// The warning a suspicious keyword earns when found in a raw log line.
pub open spec fn spec_raw_warn(kw: Seq<char>, line: Seq<char>) -> Seq<char> {
    "⚠️ Suspicious keyword '"@ + kw + "' found in raw log: "@ + line
}

/// The warning a suspicious keyword earns when found in an extracted
/// device record.
pub open spec fn spec_rec_warn(kw: Seq<char>, line: Seq<char>) -> Seq<char> {
    "⚠️ Suspicious keyword '"@ + kw + "' found in: "@ + line
}

/// One warning, phrased for a raw line or for a record.
pub open spec fn spec_warn(kw: Seq<char>, line: Seq<char>, raw: bool) -> Seq<char> {
    if raw {
        spec_raw_warn(kw, line)
    } else {
        spec_rec_warn(kw, line)
    }
}

/// The warnings one piece of text earns, checked against the three fixed
/// suspicious keywords in their fixed order, ignoring ASCII letter case.
pub open spec fn spec_line_warns(line: Seq<char>, raw: bool) -> Seq<Seq<char>> {
    (if has_substr_ci(line, "with sunxi_usb_udc"@) {
        seq![spec_warn("with sunxi_usb_udc"@, line, raw)]
    } else {
        Seq::empty()
    }) + (if has_substr_ci(line, "device reset occurred"@) {
        seq![spec_warn("device reset occurred"@, line, raw)]
    } else {
        Seq::empty()
    }) + (if has_substr_ci(line, "Mfr=0, Product=0"@) {
        seq![spec_warn("Mfr=0, Product=0"@, line, raw)]
    } else {
        Seq::empty()
    })
}

/// The warnings the first `k` lines earn.
pub open spec fn spec_raw_warns(lines: Seq<Seq<char>>, k: int) -> Seq<Seq<char>>
    decreases k,
{
    if k <= 0 {
        Seq::empty()
    } else {
        spec_raw_warns(lines, k - 1) + spec_line_warns(lines[k - 1], true)
    }
}

/// How many leading lines the raw scan reads: at most 40.
pub open spec fn spec_raw_limit(lines: Seq<Seq<char>>) -> int {
    if lines.len() <= 40 {
        lines.len() as int
    } else {
        40
    }
}

/// The warnings the raw scan of a split log earns.
pub open spec fn spec_raw_findings(lines: Seq<Seq<char>>) -> Seq<Seq<char>> {
    spec_raw_warns(lines, spec_raw_limit(lines))
}

/// Stores a record under its key, replacing the record that already
/// carries the key, else appending.
pub open spec fn spec_upsert(
    rs: Seq<(Seq<char>, Seq<char>)>,
    k: Seq<char>,
    v: Seq<char>,
) -> Seq<(Seq<char>, Seq<char>)>
    decreases rs.len(),
{
    if rs.len() == 0 {
        seq![(k, v)]
    } else if rs[0].0 == k {
        seq![(k, v)] + rs.drop_first()
    } else {
        seq![rs[0]] + spec_upsert(rs.drop_first(), k, v)
    }
}

/// The grouping key a "new ... USB device number ..." line establishes:
/// the text preceding the first ": " on that line.
pub open spec fn spec_dev_key(line: Seq<char>) -> Seq<char> {
    split_prefix(line, ": "@)
}

/// The record field a descriptive line is stored under.
pub open spec fn spec_field_name(line: Seq<char>) -> Seq<char> {
    if has_substr(line, "Manufacturer:"@) {
        "manufacturer"@
    } else if has_substr(line, "Product:"@) {
        "product"@
    } else {
        "serial"@
    }
}

/// One step of the record extraction: how one line changes the current
/// device key and the record store.
pub open spec fn spec_step(
    cur: Seq<char>,
    rs: Seq<(Seq<char>, Seq<char>)>,
    line: Seq<char>,
) -> (Seq<char>, Seq<(Seq<char>, Seq<char>)>) {
    let cur2 = if has_substr(line, "new"@) && has_substr(line, "USB device number"@) {
        spec_dev_key(line)
    } else {
        cur
    };
    let rs1 = if has_substr(line, "idVendor="@) && has_substr(line, "idProduct="@) && cur2.len()
        > 0 {
        spec_upsert(rs, cur2 + "_ids"@, line)
    } else {
        rs
    };
    let rs2 = if (has_substr(line, "Manufacturer:"@) || has_substr(line, "Product:"@)
        || has_substr(line, "SerialNumber:"@)) && cur2.len() > 0 {
        spec_upsert(rs1, cur2 + "_"@ + spec_field_name(line), line)
    } else {
        rs1
    };
    (cur2, rs2)
}

/// The device key and record store after the first `k` lines.
pub open spec fn spec_fold(lines: Seq<Seq<char>>, k: int) -> (Seq<char>, Seq<
    (Seq<char>, Seq<char>),
>)
    decreases k,
{
    if k <= 0 {
        (Seq::<char>::empty(), Seq::<(Seq<char>, Seq<char>)>::empty())
    } else {
        let p = spec_fold(lines, k - 1);
        spec_step(p.0, p.1, lines[k - 1])
    }
}

/// Every per-device record a split log yields.
pub open spec fn spec_records(lines: Seq<Seq<char>>) -> Seq<(Seq<char>, Seq<char>)> {
    spec_fold(lines, lines.len() as int).1
}

/// The warnings the first `k` stored records earn.
pub open spec fn spec_rec_warns(rs: Seq<(Seq<char>, Seq<char>)>, k: int) -> Seq<Seq<char>>
    decreases k,
{
    if k <= 0 {
        Seq::empty()
    } else {
        spec_rec_warns(rs, k - 1) + spec_line_warns(rs[k - 1].1, false)
    }
}

/// Every warning a captured log earns: the raw scan of its first 40
/// lines, then the re-scan of the extracted records.
pub open spec fn spec_all_findings(log: Seq<char>) -> Seq<Seq<char>> {
    let lines = spec_lines(log);
    let rs = spec_records(lines);
    spec_raw_findings(lines) + spec_rec_warns(rs, rs.len() as int)
}

/// The status line a captured log earns.
pub open spec fn spec_scan_status(log: Seq<char>) -> Seq<char> {
    if log.len() == 0 {
        "No USB events found in recent kernel logs"@
    } else {
        let rs = spec_records(spec_lines(log));
        let fs = spec_all_findings(log);
        if rs.len() > 0 && fs.len() > 0 {
            "Suspicious USB device detected in kernel logs!"@
        } else if rs.len() > 0 {
            "No suspicious signs of usb"@
        } else if fs.len() > 0 {
            "Suspicious USB activity detected in kernel logs!"@
        } else {
            "USB events detected but no device information extracted"@
        }
    }
}

/// The warnings of the first `k` lines keep every warning of the first
/// `k0 <= k` lines, at its place.
proof fn lemma_raw_warns_grow(lines: Seq<Seq<char>>, k0: int, k: int, idx: int)
    requires
        0 <= idx < spec_raw_warns(lines, k0).len(),
        k0 <= k,
    ensures
        spec_raw_warns(lines, k).len() >= spec_raw_warns(lines, k0).len(),
        spec_raw_warns(lines, k)[idx] == spec_raw_warns(lines, k0)[idx],
    decreases k - k0,
{
    if k0 < k {
        lemma_raw_warns_grow(lines, k0, k - 1, idx);
    }
}

/// A line among the first forty that holds the null-strings marker
/// "Mfr=0, Product=0" in any letter case earns its warning a place among
/// the findings: the log never scans clean.
pub proof fn lemma_keyword_line_is_found(log: Seq<char>, i: int)
    requires
        0 <= i < spec_lines(log).len(),
        i < 40,
        has_substr_ci(spec_lines(log)[i], "Mfr=0, Product=0"@),
    ensures
        spec_all_findings(log).contains(
            spec_raw_warn("Mfr=0, Product=0"@, spec_lines(log)[i]),
        ),
        spec_all_findings(log).len() > 0,
{
    let lines = spec_lines(log);
    let w = spec_raw_warn("Mfr=0, Product=0"@, lines[i]);
    let part = spec_raw_warns(lines, i) + spec_line_warns(lines[i], true);
    assert(part == spec_raw_warns(lines, i + 1));
    let idx = part.len() - 1;
    assert(spec_line_warns(lines[i], true).last() == w);
    assert(part[idx] == w);
    lemma_raw_warns_grow(lines, i + 1, spec_raw_limit(lines), idx);
    assert(spec_raw_findings(lines)[idx] == w);
    assert(spec_all_findings(log)[idx] == w);
}

/// A piece of text that holds none of the three suspicious keywords, in
/// any letter case.
pub open spec fn spec_line_clean(line: Seq<char>) -> bool {
    !has_substr_ci(line, "with sunxi_usb_udc"@) && !has_substr_ci(line, "device reset occurred"@)
        && !has_substr_ci(line, "Mfr=0, Product=0"@)
}

/// A line that establishes a device grouping key.
pub open spec fn spec_is_device_line(line: Seq<char>) -> bool {
    has_substr(line, "new"@) && has_substr(line, "USB device number"@)
}

/// Clean lines earn no raw warnings.
proof fn lemma_raw_warns_empty(lines: Seq<Seq<char>>, k: int)
    requires
        0 <= k <= lines.len(),
        forall|q: int| 0 <= q < lines.len() ==> spec_line_clean(#[trigger] lines[q]),
    ensures
        spec_raw_warns(lines, k).len() == 0,
    decreases k,
{
    if k > 0 {
        lemma_raw_warns_empty(lines, k - 1);
        assert(spec_line_warns(lines[k - 1], true).len() == 0);
    }
}

/// An upsert keeps every stored value clean when the stored ones and the
/// new one are.
proof fn lemma_upsert_clean(rs: Seq<(Seq<char>, Seq<char>)>, k: Seq<char>, v: Seq<char>)
    requires
        forall|q: int| 0 <= q < rs.len() ==> spec_line_clean(#[trigger] rs[q].1),
        spec_line_clean(v),
    ensures
        forall|q: int|
            0 <= q < spec_upsert(rs, k, v).len() ==> spec_line_clean(
                #[trigger] spec_upsert(rs, k, v)[q].1,
            ),
    decreases rs.len(),
{
    let u = spec_upsert(rs, k, v);
    if rs.len() == 0 {
        assert(u[0].1 == v);
    } else if rs[0].0 == k {
        assert forall|q: int| 0 <= q < u.len() implies spec_line_clean(#[trigger] u[q].1) by {
            if q == 0 {
                assert(u[q].1 == v);
            } else {
                assert(u[q] == rs.drop_first()[q - 1]);
                assert(rs.drop_first()[q - 1] == rs[q]);
            }
        }
    } else {
        assert forall|q: int| 0 <= q < rs.drop_first().len() implies spec_line_clean(
            #[trigger] rs.drop_first()[q].1,
        ) by {
            assert(rs.drop_first()[q] == rs[q + 1]);
        }
        lemma_upsert_clean(rs.drop_first(), k, v);
        assert forall|q: int| 0 <= q < u.len() implies spec_line_clean(#[trigger] u[q].1) by {
            if q == 0 {
                assert(u[q] == rs[0]);
            } else {
                assert(u[q] == spec_upsert(rs.drop_first(), k, v)[q - 1]);
            }
        }
    }
}

/// An upsert never shrinks the store and never leaves it empty.
proof fn lemma_upsert_len(rs: Seq<(Seq<char>, Seq<char>)>, k: Seq<char>, v: Seq<char>)
    ensures
        spec_upsert(rs, k, v).len() >= rs.len(),
        spec_upsert(rs, k, v).len() >= 1,
    decreases rs.len(),
{
    if rs.len() > 0 && rs[0].0 != k {
        lemma_upsert_len(rs.drop_first(), k, v);
    }
}

/// When every line is clean, every extracted record value is clean.
proof fn lemma_fold_clean(lines: Seq<Seq<char>>, k: int)
    requires
        0 <= k <= lines.len(),
        forall|q: int| 0 <= q < lines.len() ==> spec_line_clean(#[trigger] lines[q]),
    ensures
        forall|q: int|
            0 <= q < spec_fold(lines, k).1.len() ==> spec_line_clean(
                #[trigger] spec_fold(lines, k).1[q].1,
            ),
    decreases k,
{
    if k > 0 {
        lemma_fold_clean(lines, k - 1);
        let p = spec_fold(lines, k - 1);
        let line = lines[k - 1];
        let cur2 = if spec_is_device_line(line) {
            spec_dev_key(line)
        } else {
            p.0
        };
        if has_substr(line, "idVendor="@) && has_substr(line, "idProduct="@) && cur2.len() > 0 {
            lemma_upsert_clean(p.1, cur2 + "_ids"@, line);
        }
        let rs1 = spec_step(p.0, p.1, line).0;
        let mid = if has_substr(line, "idVendor="@) && has_substr(line, "idProduct="@)
            && cur2.len() > 0 {
            spec_upsert(p.1, cur2 + "_ids"@, line)
        } else {
            p.1
        };
        if (has_substr(line, "Manufacturer:"@) || has_substr(line, "Product:"@) || has_substr(
            line,
            "SerialNumber:"@,
        )) && cur2.len() > 0 {
            lemma_upsert_clean(mid, cur2 + "_"@ + spec_field_name(line), line);
        }
    }
}

/// Clean record values earn no warnings on the re-scan.
proof fn lemma_rec_warns_empty(rs: Seq<(Seq<char>, Seq<char>)>, k: int)
    requires
        0 <= k <= rs.len(),
        forall|q: int| 0 <= q < rs.len() ==> spec_line_clean(#[trigger] rs[q].1),
    ensures
        spec_rec_warns(rs, k).len() == 0,
    decreases k,
{
    if k > 0 {
        lemma_rec_warns_empty(rs, k - 1);
        assert(spec_line_warns(rs[k - 1].1, false).len() == 0);
    }
}

/// One extraction step never shrinks the record store.
proof fn lemma_step_len(cur: Seq<char>, rs: Seq<(Seq<char>, Seq<char>)>, line: Seq<char>)
    ensures
        spec_step(cur, rs, line).1.len() >= rs.len(),
{
    let cur2 = if spec_is_device_line(line) {
        spec_dev_key(line)
    } else {
        cur
    };
    if has_substr(line, "idVendor="@) && has_substr(line, "idProduct="@) && cur2.len() > 0 {
        lemma_upsert_len(rs, cur2 + "_ids"@, line);
    }
    let mid = if has_substr(line, "idVendor="@) && has_substr(line, "idProduct="@) && cur2.len()
        > 0 {
        spec_upsert(rs, cur2 + "_ids"@, line)
    } else {
        rs
    };
    if (has_substr(line, "Manufacturer:"@) || has_substr(line, "Product:"@) || has_substr(
        line,
        "SerialNumber:"@,
    )) && cur2.len() > 0 {
        lemma_upsert_len(mid, cur2 + "_"@ + spec_field_name(line), line);
    }
}

/// The record store only grows as the extraction walks on.
proof fn lemma_fold_len_mono(lines: Seq<Seq<char>>, k1: int, k2: int)
    requires
        0 <= k1 <= k2,
    ensures
        spec_fold(lines, k2).1.len() >= spec_fold(lines, k1).1.len(),
    decreases k2 - k1,
{
    if k1 < k2 {
        lemma_fold_len_mono(lines, k1, k2 - 1);
        let p = spec_fold(lines, k2 - 1);
        lemma_step_len(p.0, p.1, lines[k2 - 1]);
    }
}

/// Once a device line with a non-empty key has passed, the grouping key
/// stays non-empty as long as every later device line also carries a
/// non-empty key.
proof fn lemma_key_nonempty(lines: Seq<Seq<char>>, i: int, j: int)
    requires
        0 <= i < j,
        spec_is_device_line(lines[i]),
        spec_dev_key(lines[i]).len() > 0,
        forall|q: int|
            i < q < j && spec_is_device_line(#[trigger] lines[q]) ==> spec_dev_key(
                lines[q],
            ).len() > 0,
    ensures
        spec_fold(lines, j).0.len() > 0,
    decreases j - i,
{
    if j == i + 1 {
        assert(spec_fold(lines, j).0 == spec_dev_key(lines[i]));
    } else {
        lemma_key_nonempty(lines, i, j - 1);
        if spec_is_device_line(lines[j - 1]) {
            assert(spec_fold(lines, j).0 == spec_dev_key(lines[j - 1]));
        } else {
            assert(spec_fold(lines, j).0 == spec_fold(lines, j - 1).0);
        }
    }
}

/// A log whose lines hold no suspicious keyword, with a device line
/// whose grouping key is non-empty and a later vendor/product identifier
/// line, scans as benign: its status is "No suspicious signs of usb".
/// The one shape left out is a log where every device line up to the
/// identifier line carries an empty key (its text starts with ": "), for
/// which nothing is recorded.
pub proof fn lemma_clean_device_log_is_benign(log: Seq<char>, i: int, j: int)
    requires
        0 <= i < j < spec_lines(log).len(),
        spec_is_device_line(spec_lines(log)[i]),
        spec_dev_key(spec_lines(log)[i]).len() > 0,
        forall|q: int|
            i < q <= j && spec_is_device_line(#[trigger] spec_lines(log)[q]) ==> spec_dev_key(
                spec_lines(log)[q],
            ).len() > 0,
        has_substr(spec_lines(log)[j], "idVendor="@),
        has_substr(spec_lines(log)[j], "idProduct="@),
        forall|q: int|
            0 <= q < spec_lines(log).len() ==> spec_line_clean(#[trigger] spec_lines(log)[q]),
    ensures
        spec_scan_status(log) == "No suspicious signs of usb"@,
        spec_all_findings(log).len() == 0,
{
    let lines = spec_lines(log);
    assert(log.len() > 0);
    // no warnings anywhere
    lemma_raw_warns_empty(lines, spec_raw_limit(lines));
    lemma_fold_clean(lines, lines.len() as int);
    lemma_rec_warns_empty(spec_records(lines), spec_records(lines).len() as int);
    assert(spec_all_findings(log).len() == 0);
    // the identifier line is recorded under a non-empty key
    let p = spec_fold(lines, j);
    let cur2 = if spec_is_device_line(lines[j]) {
        spec_dev_key(lines[j])
    } else {
        p.0
    };
    if !spec_is_device_line(lines[j]) {
        lemma_key_nonempty(lines, i, j);
    }
    assert(cur2.len() > 0);
    lemma_upsert_len(p.1, cur2 + "_ids"@, lines[j]);
    let mid = spec_upsert(p.1, cur2 + "_ids"@, lines[j]);
    if (has_substr(lines[j], "Manufacturer:"@) || has_substr(lines[j], "Product:"@)
        || has_substr(lines[j], "SerialNumber:"@)) && cur2.len() > 0 {
        lemma_upsert_len(mid, cur2 + "_"@ + spec_field_name(lines[j]), lines[j]);
    }
    assert(spec_fold(lines, j + 1).1.len() >= 1);
    lemma_fold_len_mono(lines, j + 1, lines.len() as int);
    assert(spec_records(lines).len() >= 1);
}

/// Builds the warning string for one keyword found in one piece of text.
fn make_warn(kw: &str, line: &str, raw: bool) -> (w: String)
    ensures
        w@ == spec_warn(kw@, line@, raw),
{
    let mut w = String::from_str("⚠️ Suspicious keyword '");
    w.append(kw);
    if raw {
        w.append("' found in raw log: ");
    } else {
        w.append("' found in: ");
    }
    w.append(line);
    w
}

/// Appends the warnings one piece of text earns to the findings list.
fn append_line_warns(out: &mut Vec<String>, line: &str, raw: bool)
    ensures
        views_of_strings(final(out)@) == views_of_strings(old(out)@) + spec_line_warns(
            line@,
            raw,
        ),
{
    let ghost v0 = views_of_strings(out@);
    let ghost c0: Seq<Seq<char>> = if has_substr_ci(line@, "with sunxi_usb_udc"@) {
        seq![spec_warn("with sunxi_usb_udc"@, line@, raw)]
    } else {
        Seq::empty()
    };
    let ghost c1: Seq<Seq<char>> = if has_substr_ci(line@, "device reset occurred"@) {
        seq![spec_warn("device reset occurred"@, line@, raw)]
    } else {
        Seq::empty()
    };
    let ghost c2: Seq<Seq<char>> = if has_substr_ci(line@, "Mfr=0, Product=0"@) {
        seq![spec_warn("Mfr=0, Product=0"@, line@, raw)]
    } else {
        Seq::empty()
    };
    if str_has_ci(line, "with sunxi_usb_udc") {
        let w = make_warn("with sunxi_usb_udc", line, raw);
        out.push(w);
    }
    proof {
        assert(views_of_strings(out@) =~= v0 + c0);
    }
    let ghost v1 = views_of_strings(out@);
    if str_has_ci(line, "device reset occurred") {
        let w = make_warn("device reset occurred", line, raw);
        out.push(w);
    }
    proof {
        assert(views_of_strings(out@) =~= v1 + c1);
    }
    let ghost v2 = views_of_strings(out@);
    if str_has_ci(line, "Mfr=0, Product=0") {
        let w = make_warn("Mfr=0, Product=0", line, raw);
        out.push(w);
    }
    proof {
        assert(views_of_strings(out@) =~= v2 + c2);
        assert(views_of_strings(out@) =~= v0 + spec_line_warns(line@, raw));
    }
}

/// A first record with this key pins the upsert down to an update there.
proof fn lemma_upsert_found(rs: Seq<(Seq<char>, Seq<char>)>, k: Seq<char>, v: Seq<char>, i: int)
    requires
        0 <= i < rs.len(),
        rs[i].0 == k,
        forall|q: int| 0 <= q < i ==> rs[q].0 != k,
    ensures
        spec_upsert(rs, k, v) == rs.update(i, (k, v)),
    decreases i,
{
    if i == 0 {
        assert(spec_upsert(rs, k, v) =~= rs.update(0, (k, v)));
    } else {
        assert(rs[0].0 != k);
        assert forall|q: int| 0 <= q < i - 1 implies rs.drop_first()[q].0 != k by {
            assert(rs.drop_first()[q] == rs[q + 1]);
        }
        assert(rs.drop_first()[i - 1] == rs[i]);
        lemma_upsert_found(rs.drop_first(), k, v, i - 1);
        assert(spec_upsert(rs, k, v) =~= rs.update(i, (k, v)));
    }
}

/// Without a record under this key, the upsert appends.
proof fn lemma_upsert_absent(rs: Seq<(Seq<char>, Seq<char>)>, k: Seq<char>, v: Seq<char>)
    requires
        forall|q: int| 0 <= q < rs.len() ==> rs[q].0 != k,
    ensures
        spec_upsert(rs, k, v) == rs.push((k, v)),
    decreases rs.len(),
{
    if rs.len() == 0 {
        assert(spec_upsert(rs, k, v) =~= rs.push((k, v)));
    } else {
        assert forall|q: int| 0 <= q < rs.drop_first().len() implies rs.drop_first()[q].0
            != k by {
            assert(rs.drop_first()[q] == rs[q + 1]);
        }
        lemma_upsert_absent(rs.drop_first(), k, v);
        assert(spec_upsert(rs, k, v) =~= rs.push((k, v)));
    }
}

/// Stores one record, replacing the record that already carries its key.
fn upsert_record(rs: &mut Vec<(String, String)>, k: String, v: String)
    ensures
        views_of_records(final(rs)@) == spec_upsert(views_of_records(old(rs)@), k@, v@),
{
    let ghost r0 = views_of_records(rs@);
    let ghost base = rs@;
    let ghost kv = k@;
    let ghost vv = v@;
    let n = rs.len();
    let mut i: usize = 0;
    while i < n
        invariant
            i <= n,
            n == rs@.len(),
            rs@ == base,
            base == old(rs)@,
            views_of_records(rs@) == r0,
            kv == k@,
            vv == v@,
            forall|q: int| 0 <= q < i ==> r0[q].0 != kv,
        decreases n - i,
    {
        proof {
            assert(r0[i as int] == (rs@[i as int].0@, rs@[i as int].1@));
        }
        if str_eq(rs[i].0.as_str(), k.as_str()) {
            proof {
                assert(r0[i as int].0 == kv);
                lemma_upsert_found(r0, kv, vv, i as int);
            }
            rs.remove(i);
            let ghost mid = rs@;
            rs.insert(i, (k, v));
            proof {
                assert(rs@[i as int].0@ == kv);
                assert(rs@[i as int].1@ == vv);
                assert forall|q: int|
                    0 <= q < r0.len() implies views_of_records(rs@)[q] == r0.update(
                    i as int,
                    (kv, vv),
                )[q] by {
                    if q < i as int {
                        assert(mid[q] == base[q]);
                        assert(rs@[q] == mid[q]);
                    } else if q > i as int {
                        assert(mid[q - 1] == base[q]);
                        assert(rs@[q] == mid[q - 1]);
                    }
                }
                assert(views_of_records(rs@) =~= r0.update(i as int, (kv, vv)));
            }
            return ;
        }
        i += 1;
    }
    proof {
        lemma_upsert_absent(r0, kv, vv);
    }
    rs.push((k, v));
    proof {
        assert(views_of_records(rs@) =~= r0.push((kv, vv)));
    }
}

/// Scans captured kernel-log text: raw keyword warnings over the first 40
/// lines, per-device record extraction over every line, a re-scan of the
/// record values, and the status classification. Returns the status line,
/// every warning in order, and the extracted records.
pub fn scan_log_text(log: &str) -> (r: (&'static str, Vec<String>, Vec<(String, String)>))
    ensures
        r.0@ == spec_scan_status(log@),
        views_of_strings(r.1@) == spec_all_findings(log@),
        views_of_records(r.2@) == spec_records(spec_lines(log@)),
{
    if log.is_empty() {
        proof {
            assert(views_of_strings(Seq::<String>::empty()) =~= spec_all_findings(log@));
            assert(views_of_records(Seq::<(String, String)>::empty()) =~= spec_records(
                spec_lines(log@),
            ));
        }
        return ("No USB events found in recent kernel logs", Vec::new(), Vec::new());
    }
    let lines = split_lines(log);
    let ghost lv = spec_lines(log@);
    let mut findings: Vec<String> = Vec::new();
    let limit = if lines.len() < 40 {
        lines.len()
    } else {
        40
    };
    let mut li: usize = 0;
    proof {
        assert(views_of_strings(findings@) =~= spec_raw_warns(lv, 0));
    }
    while li < limit
        invariant
            li <= limit,
            limit as int == spec_raw_limit(lv),
            limit <= lines@.len(),
            views_of(lines@) == lv,
            lines@.len() == lv.len(),
            forall|j: int| 0 <= j < lines@.len() ==> lines@[j]@ == lv[j],
            views_of_strings(findings@) == spec_raw_warns(lv, li as int),
        decreases limit - li,
    {
        append_line_warns(&mut findings, lines[li], true);
        li += 1;
    }
    let mut records: Vec<(String, String)> = Vec::new();
    let mut current: &str = "";
    proof {
        reveal_strlit("");
        assert(""@ =~= Seq::<char>::empty());
        assert(views_of_records(records@) =~= spec_fold(lv, 0).1);
    }
    let n = lines.len();
    let mut i: usize = 0;
    while i < n
        invariant
            i <= n,
            n == lines@.len(),
            views_of(lines@) == lv,
            lines@.len() == lv.len(),
            forall|j: int| 0 <= j < lines@.len() ==> lines@[j]@ == lv[j],
            current@ == spec_fold(lv, i as int).0,
            views_of_records(records@) == spec_fold(lv, i as int).1,
        decreases n - i,
    {
        let line = lines[i];
        let ghost prev = spec_fold(lv, i as int);
        if str_has(line, "new") && str_has(line, "USB device number") {
            current = str_split_prefix(line, ": ");
        }
        proof {
            assert(current@ == spec_step(prev.0, prev.1, lv[i as int]).0);
        }
        if str_has(line, "idVendor=") && str_has(line, "idProduct=") {
            if !current.is_empty() {
                let mut key = String::from_str(current);
                key.append("_ids");
                upsert_record(&mut records, key, String::from_str(line));
            }
        }
        if str_has(line, "Manufacturer:") || str_has(line, "Product:") || str_has(
            line,
            "SerialNumber:",
        ) {
            if !current.is_empty() {
                let mut key = String::from_str(current);
                key.append("_");
                if str_has(line, "Manufacturer:") {
                    key.append("manufacturer");
                } else if str_has(line, "Product:") {
                    key.append("product");
                } else {
                    key.append("serial");
                }
                upsert_record(&mut records, key, String::from_str(line));
            }
        }
        proof {
            assert(views_of_records(records@) == spec_step(prev.0, prev.1, lv[i as int]).1);
            assert(spec_fold(lv, i + 1) == spec_step(prev.0, prev.1, lv[i as int]));
        }
        i += 1;
    }
    let ghost rv = spec_records(lv);
    let rn = records.len();
    let mut rj: usize = 0;
    while rj < rn
        invariant
            rj <= rn,
            rn == records@.len(),
            views_of_records(records@) == rv,
            views_of_strings(findings@) == spec_raw_findings(lv) + spec_rec_warns(rv, rj as int),
        decreases rn - rj,
    {
        proof {
            assert(views_of_records(records@)[rj as int].1 == records@[rj as int].1@);
        }
        append_line_warns(&mut findings, records[rj].1.as_str(), false);
        rj += 1;
    }
    proof {
        assert(views_of_strings(findings@) == spec_all_findings(log@));
        assert(views_of_strings(findings@).len() == findings@.len());
        assert(views_of_records(records@).len() == records@.len());
    }
    let status: &'static str = if records.len() > 0 {
        if findings.len() > 0 {
            "Suspicious USB device detected in kernel logs!"
        } else {
            "No suspicious signs of usb"
        }
    } else {
        if findings.len() > 0 {
            "Suspicious USB activity detected in kernel logs!"
        } else {
            "USB events detected but no device information extracted"
        }
    };
    (status, findings, records)
}

/// Checks the kernel log for the given platform. `dmesg` is what the
/// caller's log-capture capability produced on Linux: the captured text,
/// or `None` when the command could not be executed. Other platforms
/// never read it.
pub fn def_check_kernel_logs(operating_system: &str, dmesg: Option<&str>) -> (r: (
    &'static str,
    Vec<String>,
))
    ensures
        operating_system@ == "Linux"@ ==> match dmesg {
            None => r.0@ == "Failed to execute dmesg command"@ && r.1@.len() == 0,
            Some(log) => r.0@ == spec_scan_status(log@) && views_of_strings(r.1@)
                == spec_all_findings(log@),
        },
        operating_system@ == "macOS"@ ==> r.0@ == "System logs checked for macOS"@ && r.1@.len()
            == 0,
        operating_system@ != "Linux"@ && operating_system@ != "macOS"@ ==> r.0@
            == "Unsupported OS for log checking"@ && r.1@.len() == 0,
{
    proof {
        assert("Linux"@ != "macOS"@) by {
            reveal_strlit("Linux");
            reveal_strlit("macOS");
            assert("Linux"@[0] == 'L');
            assert("macOS"@[0] == 'm');
        }
    }
    if str_eq(operating_system, "Linux") {
        match dmesg {
            Some(log) => {
                let (status, findings, _records) = scan_log_text(log);
                (status, findings)
            },
            None => ("Failed to execute dmesg command", Vec::new()),
        }
    } else if str_eq(operating_system, "macOS") {
        ("System logs checked for macOS", Vec::new())
    } else {
        ("Unsupported OS for log checking", Vec::new())
    }
}

} // verus!
