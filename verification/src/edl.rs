//! The editorial cut-list generator: scans the decoded frame stream for
//! scene cuts, converts the cut list into SMPTE-timecoded edit events,
//! and renders them into chunked cut-list files, at most 9999 entries
//! per file.  The rendered bytes are the deliverable, so the text is
//! specified exactly.
use vstd::prelude::*;

use crate::ConvertError;
use crate::cmv40::EditRate;
use crate::rpu::FrameRecord;
use crate::text::dec_str;
use crate::text::pad2_str;
use crate::text::pad4_str;
use crate::text::append_decimal;
use crate::text::append_pad2;
use crate::text::append_pad4;

verus! {

/// The per-file capacity of the cut list.
pub const EDL_CHUNK_CAPACITY: usize = 9999;

/// The arguments of the cut-list pipeline.
pub struct EdlArgs {
    pub clip_name: String,
    pub force: bool,
    pub rate: Vec<u64>,
    pub start_timecode: String,
    pub skip: usize,
    pub count: Option<usize>,
}

/// How many records the scan looks at: the effective budget, cut off at
/// the end of the input after the skipped prefix.
pub open spec fn edl_processed_spec(total: int, skip: int, budget0: int) -> int {
    if total - skip <= 0 {
        0
    } else if budget0 <= total - skip {
        budget0
    } else {
        total - skip
    }
}

/// Whether the record `j` positions past the skip point starts a scene.
pub open spec fn is_cut_at(frames: Seq<FrameRecord>, skip: int, j: int) -> bool {
    &&& frames[skip + j] is Valid
    &&& frames[skip + j]->Valid_0.scene_refresh
}

/// The scene-cut positions among the first `n` processed records, in
/// order, as offsets from the skip point.
pub open spec fn cuts_prefix(frames: Seq<FrameRecord>, skip: int, n: int) -> Seq<int>
    decreases n,
{
    if n <= 0 {
        Seq::empty()
    } else {
        cuts_prefix(frames, skip, n - 1) + (if is_cut_at(frames, skip, n - 1) {
            seq![n - 1]
        } else {
            Seq::empty()
        })
    }
}

/// Cut positions are strictly increasing and lie within the processed
/// range.
pub proof fn lemma_cuts_prefix_increasing(frames: Seq<FrameRecord>, skip: int, n: int)
    requires
        n >= 0,
    ensures
        ({
            let c = cuts_prefix(frames, skip, n);
            &&& (forall|a: int, b: int| 0 <= a < b < c.len() ==> #[trigger] c[a] < #[trigger] c[b])
            &&& (forall|a: int| 0 <= a < c.len() ==> 0 <= #[trigger] c[a] < n)
        }),
    decreases n,
{
    if n > 0 {
        lemma_cuts_prefix_increasing(frames, skip, n - 1);
        let c0 = cuts_prefix(frames, skip, n - 1);
        let c = cuts_prefix(frames, skip, n);
        assert(forall|a: int| 0 <= a < c0.len() ==> #[trigger] c[a] == c0[a]);
        if is_cut_at(frames, skip, n - 1) {
            assert(c[c.len() - 1] == n - 1);
        }
    }
}

/// The scan state of the cut-list generator: how many records were
/// looked at and where the scene cuts sit.
pub struct EdlConverter {
    pub frame_index: usize,
    pub shots: Vec<usize>,
}

impl EdlConverter {
    /// Scans the frame stream for scene cuts: the first `skip` records
    /// are dropped, then up to the effective budget of records is
    /// examined; every valid record with the scene-refresh indicator
    /// starts a cut.
    #[verifier::loop_isolation(false)]
    pub fn scan(frames: &Vec<FrameRecord>, skip: usize, count: Option<usize>) -> (r: EdlConverter)
        requires
            (count matches Some(c) ==> c + skip < usize::MAX),
        ensures
            ({
                let budget0 = crate::convert::effective_count_spec(
                    count,
                    skip as int,
                    frames@.len() as int,
                );
                let n = edl_processed_spec(frames@.len() as int, skip as int, budget0);
                &&& r.frame_index == n
                &&& r.shots@.len() == cuts_prefix(frames@, skip as int, n).len()
                &&& (forall|k: int|
                    0 <= k < r.shots@.len() ==> #[trigger] r.shots@[k] == cuts_prefix(
                        frames@,
                        skip as int,
                        n,
                    )[k])
            }),
    {
        let total = frames.len();
        let budget0: usize = match count {
            Some(c) => if c + skip > total {
                total
            } else {
                c
            },
            None => total,
        };
        let ghost n = edl_processed_spec(frames@.len() as int, skip as int, budget0 as int);
        let mut shots: Vec<usize> = Vec::new();
        let mut j: usize = 0;
        while skip + j < total && j < budget0
            invariant
                skip + j <= total || j == 0,
                j <= budget0,
                j <= n,
                shots@.len() == cuts_prefix(frames@, skip as int, j as int).len(),
                forall|k: int|
                    0 <= k < shots@.len() ==> #[trigger] shots@[k] == cuts_prefix(
                        frames@,
                        skip as int,
                        j as int,
                    )[k],
            decreases total - j,
        {
            let is_cut = match &frames[skip + j] {
                FrameRecord::Valid(fd) => fd.scene_refresh,
                FrameRecord::Invalid => false,
            };
            if is_cut {
                shots.push(j);
            }
            proof {
                assert(cuts_prefix(frames@, skip as int, j + 1 as int) == cuts_prefix(
                    frames@,
                    skip as int,
                    j as int,
                ) + (if is_cut_at(frames@, skip as int, j as int) {
                    seq![j as int]
                } else {
                    Seq::<int>::empty()
                }));
            }
            j = j + 1;
        }
        proof {
            assert(j == n);
        }
        EdlConverter { frame_index: j, shots }
    }

    /// Whether the generator must stop for operator confirmation: every
    /// processed frame started its own cut, more than one frame was
    /// processed, and the force flag is off.
    pub fn needs_confirmation(&self, force: bool) -> (r: bool)
        ensures
            r == (self.shots@.len() == self.frame_index && self.frame_index > 1 && !force),
    {
        self.shots.len() == self.frame_index && self.frame_index > 1 && !force
    }
}

/// The whole-frame timebase of an edit rate: the numerator itself over
/// denominator one, or the rounded rate over the broadcast denominator
/// 1001; anything else is unsupported.
pub open spec fn timebase_spec(rate: EditRate) -> Option<u64> {
    if rate.d == 1 && rate.n >= 1 {
        Some(rate.n)
    } else if rate.d == 1001 && (rate.n + 500) / 1001 >= 1 {
        Some(((rate.n + 500) / 1001) as u64)
    } else {
        None
    }
}

/// Computes the timebase of an edit rate, rejecting unsupported
/// denominators.
pub fn timebase_of(rate: &EditRate) -> (r: Result<u64, ConvertError>)
    requires
        rate.n <= u64::MAX - 500,
    ensures
        r matches Ok(tb) ==> timebase_spec(*rate) == Some(tb) && tb >= 1,
        r is Err <==> timebase_spec(*rate) is None,
        r matches Err(e) ==> e == ConvertError::UnsupportedRateDenominator,
{
    if rate.d == 1 && rate.n >= 1 {
        Ok(rate.n)
    } else if rate.d == 1001 && (rate.n + 500) / 1001 >= 1 {
        Ok((rate.n + 500) / 1001)
    } else {
        Err(ConvertError::UnsupportedRateDenominator)
    }
}

/// The frame count of a timecode's fields at a whole-frame timebase.
pub open spec fn tc_ff(n: nat, tb: nat) -> nat {
    n % tb
}

/// The seconds field of a timecode.
pub open spec fn tc_ss(n: nat, tb: nat) -> nat {
    (n / tb) % 60
}

/// The minutes field of a timecode.
pub open spec fn tc_mm(n: nat, tb: nat) -> nat {
    (n / tb / 60) % 60
}

/// The hours field of a timecode.
pub open spec fn tc_hh(n: nat, tb: nat) -> nat {
    n / tb / 60 / 60
}

/// The non-drop-frame timecode of frame `n`: colon-separated, two-digit
/// zero-padded fields.
pub open spec fn tc_str(n: nat, tb: nat) -> Seq<char> {
    pad2_str(tc_hh(n, tb)) + ":"@ + pad2_str(tc_mm(n, tb)) + ":"@ + pad2_str(tc_ss(n, tb)) + ":"@
        + pad2_str(tc_ff(n, tb))
}

/// Appends the timecode of frame `n` to `s`.
pub fn append_timecode(s: &mut String, n: u64, tb: u64)
    requires
        tb >= 1,
    ensures
        final(s)@ == old(s)@ + tc_str(n as nat, tb as nat),
{
    let ff = n % tb;
    let total_seconds = n / tb;
    let ss = total_seconds % 60;
    let mm = (total_seconds / 60) % 60;
    let hh = total_seconds / 60 / 60;
    append_pad2(s, hh);
    s.append(":");
    append_pad2(s, mm);
    s.append(":");
    append_pad2(s, ss);
    s.append(":");
    append_pad2(s, ff);
    proof {
        assert(final(s)@ =~= old(s)@ + tc_str(n as nat, tb as nat));
    }
}

/// One edit event: zero-padded chunk-relative index, the fixed reel and
/// video-cut markers, source in, duration, record in, record out, and
/// the clip-name comment.
pub open spec fn event_text(
    k: nat,
    fin: nat,
    fout: nat,
    start: nat,
    tb: nat,
    clip: Seq<char>,
) -> Seq<char>
    recommends
        fin <= fout,
{
    pad4_str(k) + "  AX       V     C        "@ + tc_str(fin, tb) + " "@ + tc_str(
        (fout - fin) as nat,
        tb,
    ) + " "@ + tc_str((start + fin) as nat, tb) + " "@ + tc_str((start + fout) as nat, tb)
        + "  \r\n* FROM CLIP NAME: "@ + clip + "\r\n\r\n"@
}

/// A chunk's header line, carrying the input stem and the chunk number.
pub open spec fn chunk_title(stem: Seq<char>, c: nat) -> Seq<char> {
    "TITLE: Timeline "@ + stem + " "@ + dec_str(c) + "\r\nFCM: NON-DROP FRAME\r\n\r\n"@
}

/// The source-in frame of the cut-list entry at `x`: the previous
/// entry's value, or zero for the first.
pub open spec fn fin_of(cuts: Seq<u64>, x: int) -> u64 {
    if x == 0 {
        0
    } else {
        cuts[x - 1]
    }
}

/// The events of the cut-list entries in `[lo, hi)`, numbered from `k`:
/// one per entry, except that an entry of zero starts no event.
pub open spec fn chunk_events_text(
    cuts: Seq<u64>,
    lo: int,
    hi: int,
    k: nat,
    start: nat,
    tb: nat,
    clip: Seq<char>,
) -> Seq<char>
    decreases hi - lo,
{
    if lo >= hi || lo < 0 {
        Seq::empty()
    } else if cuts[lo] == 0 {
        chunk_events_text(cuts, lo + 1, hi, k, start, tb, clip)
    } else {
        event_text(k, fin_of(cuts, lo) as nat, cuts[lo] as nat, start, tb, clip)
            + chunk_events_text(cuts, lo + 1, hi, k + 1, start, tb, clip)
    }
}

/// The number of chunks a cut list of `n` entries needs.
pub open spec fn chunk_count_spec(n: int) -> int {
    if n <= 0 {
        1
    } else {
        (n + EDL_CHUNK_CAPACITY - 1) / (EDL_CHUNK_CAPACITY as int)
    }
}

/// The full text of chunk `c`.
pub open spec fn chunk_text_spec(
    cuts: Seq<u64>,
    c: int,
    stem: Seq<char>,
    start: nat,
    tb: nat,
    clip: Seq<char>,
) -> Seq<char> {
    let lo = c * (EDL_CHUNK_CAPACITY as int);
    let hi = if lo + (EDL_CHUNK_CAPACITY as int) <= cuts.len() {
        lo + (EDL_CHUNK_CAPACITY as int)
    } else {
        cuts.len() as int
    };
    chunk_title(stem, c as nat) + chunk_events_text(cuts, lo, hi, 0, start, tb, clip)
}


/// Appends one edit event to `s`.
#[verifier::loop_isolation(false)]
#[verifier::rlimit(100)]
#[verifier::spinoff_prover]
fn append_event(s: &mut String, k: u64, fin: u64, fout: u64, start: u64, tb: u64, clip: &str)
    requires
        tb >= 1,
        fin <= fout,
        start + fout <= u64::MAX,
    ensures
        final(s)@ == old(s)@ + event_text(
            k as nat,
            fin as nat,
            fout as nat,
            start as nat,
            tb as nat,
            clip@,
        ),
{
    append_pad4(s, k);
    s.append("  AX       V     C        ");
    append_timecode(s, fin, tb);
    s.append(" ");
    append_timecode(s, fout - fin, tb);
    s.append(" ");
    append_timecode(s, start + fin, tb);
    s.append(" ");
    append_timecode(s, start + fout, tb);
    s.append("  \r\n* FROM CLIP NAME: ");
    s.append(clip);
    s.append("\r\n\r\n");
    proof {
        assert(final(s)@ =~= old(s)@ + event_text(
            k as nat,
            fin as nat,
            fout as nat,
            start as nat,
            tb as nat,
            clip@,
        ));
    }
}

/// Renders the cut list into chunked cut-list files: the cut positions
/// followed by the closing total, at most 9999 entries per file, each
/// file with its own header and zero-based event numbering, timecode
/// continuity kept across files.
#[verifier::loop_isolation(false)]
#[verifier::rlimit(100)]
#[verifier::spinoff_prover]
pub fn build_edl_chunks(
    cuts: &Vec<u64>,
    frames_processed: u64,
    start: u64,
    tb: u64,
    clip: &str,
    stem: &str,
) -> (r: Vec<String>)
    requires
        tb >= 1,
        forall|a: int, b: int| 0 <= a < b < cuts@.len() ==> #[trigger] cuts@[a] < #[trigger] cuts@[b],
        forall|a: int| 0 <= a < cuts@.len() ==> #[trigger] cuts@[a] < frames_processed,
        start + frames_processed <= u64::MAX,
        cuts@.len() + EDL_CHUNK_CAPACITY + 1 < usize::MAX,
    ensures
        ({
            let full = cuts@.push(frames_processed);
            &&& r@.len() == chunk_count_spec(full.len() as int)
            &&& (forall|c: int|
                0 <= c < r@.len() ==> (#[trigger] r@[c])@ == chunk_text_spec(
                    full,
                    c,
                    stem@,
                    start as nat,
                    tb as nat,
                    clip@,
                ))
        }),
{
    let mut full: Vec<u64> = Vec::new();
    let mut ci: usize = 0;
    while ci < cuts.len()
        invariant
            ci <= cuts@.len(),
            full@ == cuts@.subrange(0, ci as int),
        decreases cuts@.len() - ci,
    {
        full.push(cuts[ci]);
        proof {
            assert(full@ =~= cuts@.subrange(0, ci + 1 as int));
        }
        ci = ci + 1;
    }
    proof {
        assert(cuts@.subrange(0, cuts@.len() as int) =~= cuts@);
    }
    full.push(frames_processed);
    proof {
        assert(full@ =~= cuts@.push(frames_processed));
    }
    let n = full.len();
    let mut chunks: Vec<String> = Vec::new();
    let mut frame_in: u64 = 0;
    let mut x: usize = 0;
    let mut c: usize = 0;
    while x < n
        invariant
            x <= n,
            n == full@.len(),
            n >= 1,
            full@ == cuts@.push(frames_processed),
            x == c * EDL_CHUNK_CAPACITY || (x == n && n <= c * EDL_CHUNK_CAPACITY),
            c > 0 ==> (c - 1) * EDL_CHUNK_CAPACITY < n,
            chunks@.len() == c,
            frame_in == fin_of(full@, x as int),
            frame_in <= frames_processed,
            forall|cc: int|
                0 <= cc < c ==> (#[trigger] chunks@[cc])@ == chunk_text_spec(
                    full@,
                    cc,
                    stem@,
                    start as nat,
                    tb as nat,
                    clip@,
                ),
        decreases n - x,
    {
        let hi = if x + EDL_CHUNK_CAPACITY <= n {
            x + EDL_CHUNK_CAPACITY
        } else {
            n
        };
        let mut s = String::new();
        s.append("TITLE: Timeline ");
        s.append(stem);
        s.append(" ");
        append_decimal(&mut s, c as u64);
        s.append("\r\nFCM: NON-DROP FRAME\r\n\r\n");
        proof {
            assert(s@ =~= chunk_title(stem@, c as nat));
        }
        let ghost lo = x as int;
        let mut k: u64 = 0;
        while x < hi
            invariant
                lo <= x as int <= hi <= n,
                n == full@.len(),
                full@ == cuts@.push(frames_processed),
                frame_in == fin_of(full@, x as int),
                frame_in <= frames_processed,
                s@ + chunk_events_text(
                    full@,
                    x as int,
                    hi as int,
                    k as nat,
                    start as nat,
                    tb as nat,
                    clip@,
                ) == chunk_title(stem@, c as nat) + chunk_events_text(
                    full@,
                    lo,
                    hi as int,
                    0,
                    start as nat,
                    tb as nat,
                    clip@,
                ),
                k <= x - lo,
            decreases hi - x,
        {
            let fout = full[x];
            if fout != 0 {
                proof {
                    assert(fin_of(full@, x as int) <= fout);
                    assert(fout <= frames_processed);
                }
                let ghost s0 = s@;
                append_event(&mut s, k, frame_in, fout, start, tb, clip);
                proof {
                    let ev = event_text(
                        k as nat,
                        frame_in as nat,
                        fout as nat,
                        start as nat,
                        tb as nat,
                        clip@,
                    );
                    let rest = chunk_events_text(
                        full@,
                        x + 1 as int,
                        hi as int,
                        (k + 1) as nat,
                        start as nat,
                        tb as nat,
                        clip@,
                    );
                    assert(chunk_events_text(
                        full@,
                        x as int,
                        hi as int,
                        k as nat,
                        start as nat,
                        tb as nat,
                        clip@,
                    ) == ev + rest);
                    assert((s0 + ev) + rest =~= s0 + (ev + rest));
                }
                frame_in = fout;
                k = k + 1;
            } else {
                proof {
                    assert(x == 0);
                }
            }
            x = x + 1;
        }
        chunks.push(s);
        c = c + 1;
        proof {
            if hi as int == lo + EDL_CHUNK_CAPACITY {
                assert(x == c * EDL_CHUNK_CAPACITY);
            } else {
                assert(x == n);
                assert(n <= c * EDL_CHUNK_CAPACITY);
            }
            assert((c - 1) * EDL_CHUNK_CAPACITY < n);
        }
    }
    proof {
        assert(c >= 1);
        assert(n <= c * EDL_CHUNK_CAPACITY);
        assert((c - 1) * EDL_CHUNK_CAPACITY < n);
        assert(c == chunk_count_spec(n as int)) by (nonlinear_arith)
            requires
                (c - 1) * EDL_CHUNK_CAPACITY < n <= c * EDL_CHUNK_CAPACITY,
                c >= 1,
                n >= 1,
        ;
    }
    chunks
}

/// The output file name of chunk `i`: the stem, an underscore suffix
/// with the chunk number, and the extension.
pub fn chunk_file_name(stem: &str, ext: &str, i: u64) -> (r: String)
    ensures
        r@ == stem@ + "_"@ + dec_str(i as nat) + "."@ + ext@,
{
    let mut s = String::new();
    s.append(stem);
    s.append("_");
    append_decimal(&mut s, i);
    s.append(".");
    s.append(ext);
    proof {
        assert(s@ =~= stem@ + "_"@ + dec_str(i as nat) + "."@ + ext@);
    }
    s
}


/// The numeric value of a digit character.
pub open spec fn digit_value(c: char) -> nat {
    if c == '0' {
        0
    } else if c == '1' {
        1
    } else if c == '2' {
        2
    } else if c == '3' {
        3
    } else if c == '4' {
        4
    } else if c == '5' {
        5
    } else if c == '6' {
        6
    } else if c == '7' {
        7
    } else if c == '8' {
        8
    } else {
        9
    }
}

/// Whether a character is a decimal digit.
pub open spec fn is_digit(c: char) -> bool {
    c == '0' || c == '1' || c == '2' || c == '3' || c == '4' || c == '5' || c == '6' || c == '7'
        || c == '8' || c == '9'
}

/// Whether every character of a sequence is a decimal digit.
pub open spec fn all_digits(s: Seq<char>) -> bool {
    forall|i: int| 0 <= i < s.len() ==> is_digit(#[trigger] s[i])
}

/// The value of a digit sequence, most significant first.
pub open spec fn digits_value(s: Seq<char>) -> nat
    decreases s.len(),
{
    if s.len() == 0 {
        0
    } else {
        digits_value(s.drop_last()) * 10 + digit_value(s.last())
    }
}

/// Whether a string has the fixed timecode shape `HH:MM:SS:FF`.
pub open spec fn is_tc_shape(s: Seq<char>) -> bool {
    &&& s.len() == 11
    &&& s[2] == ':' && s[5] == ':' && s[8] == ':'
    &&& is_digit(s[0]) && is_digit(s[1]) && is_digit(s[3]) && is_digit(s[4]) && is_digit(s[6])
        && is_digit(s[7]) && is_digit(s[9]) && is_digit(s[10])
}

/// The frame count of a fixed-shape timecode string at timebase `tb`.
pub open spec fn tc_shape_frames(s: Seq<char>, tb: nat) -> nat {
    let hh = digit_value(s[0]) * 10 + digit_value(s[1]);
    let mm = digit_value(s[3]) * 10 + digit_value(s[4]);
    let ss = digit_value(s[6]) * 10 + digit_value(s[7]);
    let ff = digit_value(s[9]) * 10 + digit_value(s[10]);
    ((hh * 60 + mm) * 60 + ss) * tb + ff
}

/// Reads one digit character.
fn read_digit(s: &str, i: usize) -> (r: Option<u64>)
    requires
        i < s@.len(),
    ensures
        r is Some <==> is_digit(s@[i as int]),
        r matches Some(d) ==> d == digit_value(s@[i as int]) && d <= 9,
{
    let c = s.get_char(i);
    match c {
        '0' => Some(0),
        '1' => Some(1),
        '2' => Some(2),
        '3' => Some(3),
        '4' => Some(4),
        '5' => Some(5),
        '6' => Some(6),
        '7' => Some(7),
        '8' => Some(8),
        '9' => Some(9),
        _ => None,
    }
}

/// Reads a two-digit field at position `i`.
fn read_two_digits(s: &str, i: usize) -> (r: Option<u64>)
    requires
        i + 1 < s@.len(),
        i + 1 < usize::MAX,
    ensures
        r is Some <==> is_digit(s@[i as int]) && is_digit(s@[i + 1]),
        r matches Some(v) ==> v == digit_value(s@[i as int]) * 10 + digit_value(s@[i + 1]) && v
            <= 99,
{
    match (read_digit(s, i), read_digit(s, i + 1)) {
        (Some(a), Some(b)) => Some(a * 10 + b),
        _ => None,
    }
}

/// Parses the starting timecode of the cut list: either a plain frame
/// count (a digit string of at most fifteen digits) or the timecode
/// shape `HH:MM:SS:FF`, converted at timebase `tb`.
#[verifier::loop_isolation(false)]
pub fn parse_start_timecode(s: &str, tb: u64) -> (r: Option<u64>)
    requires
        1 <= tb <= 1_000_000,
    ensures
        r is Some <==> ((1 <= s@.len() <= 15 && all_digits(s@)) || is_tc_shape(s@)),
        r matches Some(v) ==> ((1 <= s@.len() <= 15 && all_digits(s@) && v == digits_value(s@))
            || (is_tc_shape(s@) && v == tc_shape_frames(s@, tb as nat))),
{
    let n = s.unicode_len();
    if n >= 1 && n <= 15 {
        let mut all = true;
        let mut v: u64 = 0;
        let mut i: usize = 0;
        while i < n && all
            invariant
                i <= n,
                n == s@.len(),
                n <= 15,
                all ==> all_digits(s@.subrange(0, i as int)),
                all ==> v == digits_value(s@.subrange(0, i as int)),
                !all ==> !all_digits(s@),
                v < 1_000_000_000_000_000,
            decreases n - i,
        {
            match read_digit(s, i) {
                Some(d) => {
                    proof {
                        lemma_digits_value_bound(s@.subrange(0, i as int));
                        assert(s@.subrange(0, i + 1 as int).drop_last() =~= s@.subrange(
                            0,
                            i as int,
                        ));
                        assert(s@.subrange(0, i + 1 as int).last() == s@[i as int]);
                        assert(all_digits(s@.subrange(0, i + 1 as int))) by {
                            assert(forall|m: int|
                                0 <= m < i + 1 ==> #[trigger] s@.subrange(0, i + 1 as int)[m]
                                    == s@.subrange(0, i as int).push(s@[i as int])[m]);
                        }
                    }
                    v = v * 10 + d;
                    proof {
                        lemma_digits_value_bound(s@.subrange(0, i + 1 as int));
                    }
                },
                None => {
                    all = false;
                    proof {
                        assert(!is_digit(s@[i as int]));
                    }
                },
            }
            i = i + 1;
        }
        if all {
            proof {
                assert(s@.subrange(0, n as int) =~= s@);
            }
            return Some(v);
        }
    }
    if n == 11 {
        let c2 = s.get_char(2);
        let c5 = s.get_char(5);
        let c8 = s.get_char(8);
        if c2 == ':' && c5 == ':' && c8 == ':' {
            match (
                read_two_digits(s, 0),
                read_two_digits(s, 3),
                read_two_digits(s, 6),
                read_two_digits(s, 9),
            ) {
                (Some(hh), Some(mm), Some(ss), Some(ff)) => {
                    proof {
                        let x = ((hh * 60 + mm) * 60 + ss) as int;
                        assert(x <= 362439);
                        vstd::arithmetic::mul::lemma_mul_upper_bound(
                            x,
                            362439,
                            tb as int,
                            1_000_000,
                        );
                    }
                    return Some(((hh * 60 + mm) * 60 + ss) * tb + ff);
                },
                _ => {},
            }
        }
        None
    } else {
        None
    }
}

/// A digit string of length at most `n` stays below ten to the `n`.
proof fn lemma_digits_value_bound(s: Seq<char>)
    requires
        all_digits(s),
        s.len() <= 15,
    ensures
        digits_value(s) < pow10(s.len() as nat),
        digits_value(s) < 1_000_000_000_000_000,
    decreases s.len(),
{
    if s.len() == 0 {
    } else {
        assert(all_digits(s.drop_last()));
        lemma_digits_value_bound(s.drop_last());
        assert(digit_value(s.last()) <= 9);
        assert(pow10(s.len() as nat) == pow10((s.len() - 1) as nat) * 10);
        lemma_pow10_monotone(s.len() as nat);
    }
}

/// Ten to the `n`, for small `n`.
pub open spec fn pow10(n: nat) -> nat
    decreases n,
{
    if n == 0 {
        1
    } else {
        pow10((n - 1) as nat) * 10
    }
}

/// `pow10` stays within the fixed bound for exponents up to fifteen.
proof fn lemma_pow10_monotone(n: nat)
    requires
        n <= 15,
    ensures
        pow10(n) <= 1_000_000_000_000_000,
    decreases n,
{
    if n > 0 {
        lemma_pow10_bound_table((n - 1) as nat);
        lemma_pow10_bound_table(n);
    }
}

/// The exact table bound of `pow10` for small exponents.
pub open spec fn pow10_table(n: nat) -> nat {
    if n == 0 { 1 } else if n == 1 { 10 } else if n == 2 { 100 } else if n == 3 { 1000 }
    else if n == 4 { 10000 } else if n == 5 { 100000 } else if n == 6 { 1000000 }
    else if n == 7 { 10000000 } else if n == 8 { 100000000 } else if n == 9 { 1000000000 }
    else if n == 10 { 10000000000 } else if n == 11 { 100000000000 }
    else if n == 12 { 1000000000000 } else if n == 13 { 10000000000000 }
    else if n == 14 { 100000000000000 } else { 1000000000000000 }
}

/// `pow10` matches its table for small exponents.
proof fn lemma_pow10_bound_table(n: nat)
    requires
        n <= 15,
    ensures
        pow10(n) == pow10_table(n),
    decreases n,
{
    if n > 0 {
        lemma_pow10_bound_table((n - 1) as nat);
    }
}

} // verus!
