//! The frame pipeline: mapping one gray intensity to one glyph of a
//! fixed ramp, rendering a whole grayscale buffer into text lines,
//! naming frame files by index, parsing indices back out of file
//! names, and discovering the highest available frame index.
//!
//! Reading image files, extracting frames from a video and painting to
//! the terminal are done outside the library; the functions here work
//! on the plain values those steps produce.

use vstd::prelude::*;

verus! {

use crate::text::{
    dec_str,
    digit_val,
    digits_val,
    is_digit,
    push_char,
    u64_to_string,
    lemma_digits_val_nonneg,
    lemma_dec_str_digits,
    lemma_dec_str_round_trip,
};
use vstd::arithmetic::div_mod::{
    lemma_div_is_ordered,
    lemma_div_multiples_vanish,
    lemma_fundamental_div_mod,
};

/// The glyphs of the default intensity ramp, from emptiest to fullest
/// visual weight.
pub open spec fn default_ramp_seq() -> Seq<char> {
    seq![' ', '.', ':', '-', '=', '+', '*', '#', '%', '@']
}

/// The quantization step of a ramp with `n` glyphs: intensities are
/// divided by it to pick a ramp index.
pub open spec fn scale_of(n: int) -> int {
    255int / (n - 1)
}

/// The ramp index chosen for one intensity on a ramp with `n` glyphs.
pub open spec fn glyph_index(gray: u8, n: int) -> int {
    gray as int / scale_of(n)
}

/// A usable ramp: at least two glyphs, few enough that the scale stays
/// positive, and such that the largest intensity still lands on the
/// ramp. The last condition holds of the default ramp but not of every
/// length, since both divisions round down.
pub open spec fn ramp_wf(ramp: Seq<char>) -> bool {
    &&& 2 <= ramp.len() <= 256
    &&& 255int / (255int / (ramp.len() - 1)) < ramp.len()
}

/// The mapper stays on the ramp: for any usable ramp the chosen index
/// is in range, it grows monotonically with the intensity, and the
/// full intensity reaches the last glyph, so the whole ramp is
/// covered over the inputs 0 to 255.
pub proof fn lemma_mapper_in_range(ramp: Seq<char>, i: u8, j: u8)
    requires
        ramp_wf(ramp),
        i <= j,
    ensures
        1 <= scale_of(ramp.len() as int),
        0 <= glyph_index(i, ramp.len() as int) <= glyph_index(j, ramp.len() as int) < ramp.len(),
        glyph_index(255, ramp.len() as int) == ramp.len() - 1,
{
    let n = ramp.len() as int;
    let scale = scale_of(n);
    assert(1 <= scale) by {
        lemma_div_is_ordered(n - 1, 255, n - 1);
        lemma_div_multiples_vanish(1, n - 1);
    }
    lemma_div_is_ordered(i as int, j as int, scale);
    lemma_div_is_ordered(j as int, 255, scale);
    assert(scale * (n - 1) <= 255) by {
        lemma_fundamental_div_mod(255, n - 1);
    }
    assert(n - 1 <= 255int / scale) by {
        lemma_div_is_ordered(scale * (n - 1), 255, scale);
        lemma_div_multiples_vanish(n - 1, scale);
    }
}

/// The four terminal directives the player emits.
pub enum ANSICodes {
    MoveCursorToStart,
    HideCursor,
    ShowCursor,
    ClearScreen,
}

impl ANSICodes {
    /// The control sequence of one directive, ready to be written to
    /// the terminal by the caller.
    pub fn sequence(&self) -> (r: &'static str)
        ensures
            (self matches ANSICodes::MoveCursorToStart) ==> r@ == "\x1b[H"@,
            (self matches ANSICodes::HideCursor) ==> r@ == "\x1b[?25l"@,
            (self matches ANSICodes::ShowCursor) ==> r@ == "\x1b[?25h"@,
            (self matches ANSICodes::ClearScreen) ==> r@ == "\x1b[2J"@,
    {
        match self {
            ANSICodes::MoveCursorToStart => "\x1b[H",
            ANSICodes::HideCursor => "\x1b[?25l",
            ANSICodes::ShowCursor => "\x1b[?25h",
            ANSICodes::ClearScreen => "\x1b[2J",
        }
    }
}

/// The working state of the frame pipeline: the lines of the frame
/// rendered last, the highest discovered frame index, the target
/// character grid, and the intensity ramp in use.
pub struct Frames {
    pub curr_frame: Vec<String>,
    pub max_frame_id: usize,
    pub framew: u32,
    pub frameh: u32,
    pub ramp: Vec<char>,
}

impl Frames {
    /// A well-formed pipeline: its ramp is usable.
    pub open spec fn wf(&self) -> bool {
        ramp_wf(self.ramp@)
    }

    /// A fresh pipeline for the given grid, with the default ramp, no
    /// rendered frame and no discovered frames yet.
    pub fn new(framew: u32, frameh: u32) -> (r: Self)
        ensures
            r.wf(),
            r.ramp@ == default_ramp_seq(),
            r.curr_frame@.len() == 0,
            r.max_frame_id == 0,
            r.framew == framew,
            r.frameh == frameh,
    {
        let mut ramp: Vec<char> = Vec::new();
        ramp.push(' ');
        ramp.push('.');
        ramp.push(':');
        ramp.push('-');
        ramp.push('=');
        ramp.push('+');
        ramp.push('*');
        ramp.push('#');
        ramp.push('%');
        ramp.push('@');
        proof {
            assert(ramp@ =~= default_ramp_seq());
            assert(ramp@.len() == 10);
            assert(255int / 9int == 28int);
            assert(255int / 28int == 9int);
        }
        Self { curr_frame: Vec::new(), max_frame_id: 0, framew, frameh, ramp }
    }

    /// A fresh pipeline with a caller-chosen ramp, so that other ramp
    /// styles can coexist with the default one.
    pub fn new_with_ramp(framew: u32, frameh: u32, ramp: Vec<char>) -> (r: Self)
        requires
            ramp_wf(ramp@),
        ensures
            r.wf(),
            r.ramp@ == ramp@,
            r.curr_frame@.len() == 0,
            r.max_frame_id == 0,
            r.framew == framew,
            r.frameh == frameh,
    {
        Self { curr_frame: Vec::new(), max_frame_id: 0, framew, frameh, ramp }
    }

    /// The glyph of one intensity: the ramp entry whose index is the
    /// intensity divided by the ramp's quantization step.
    pub fn map_grayscale_to_ascii(&self, gray: u8) -> (c: char)
        requires
            self.wf(),
        ensures
            c == self.ramp@[glyph_index(gray, self.ramp@.len() as int)],
    {
        let n: usize = self.ramp.len();
        proof {
            lemma_mapper_in_range(self.ramp@, gray, gray);
        }
        let scale: usize = 255 / (n - 1);
        let idx: usize = (gray as usize) / scale;
        self.ramp[idx]
    }

    /// The views of the rendered lines.
    pub open spec fn frame_view(&self) -> Seq<Seq<char>> {
        self.curr_frame@.map_values(|s: String| s@)
    }

    /// Renders one decoded frame: the buffer holds one intensity per
    /// cell of the grid, row by row, and the rendered lines hold one
    /// glyph per cell with a line break after each row.
    pub fn render_frame(&mut self, gray: &Vec<u8>)
        requires
            old(self).wf(),
            gray@.len() == (old(self).framew as int) * (old(self).frameh as int),
        ensures
            final(self).wf(),
            final(self).framew == old(self).framew,
            final(self).frameh == old(self).frameh,
            final(self).ramp@ == old(self).ramp@,
            final(self).max_frame_id == old(self).max_frame_id,
            final(self).frame_view() == frame_spec(
                gray@,
                old(self).framew as int,
                old(self).frameh as int,
                old(self).ramp@,
            ),
    {
        self.curr_frame.clear();
        let glen = gray.len();
        let w = self.framew as usize;
        let h = self.frameh as usize;
        let ghost target = frame_spec(gray@, w as int, h as int, self.ramp@);
        let mut r: usize = 0;
        while r < h
            invariant
                r <= h,
                self.wf(),
                self.framew == old(self).framew,
                self.frameh == old(self).frameh,
                self.ramp@ == old(self).ramp@,
                self.max_frame_id == old(self).max_frame_id,
                w == self.framew as usize,
                h == self.frameh as usize,
                glen == gray@.len(),
                gray@.len() == w * h,
                target == frame_spec(gray@, w as int, h as int, self.ramp@),
                self.frame_view() == target.take(r as int),
            decreases h - r,
        {
            let ghost row = row_spec(gray@, w as int, r as int, self.ramp@);
            let mut line = String::new();
            let mut c: usize = 0;
            proof {
                assert(line@ =~= row.take(0));
            }
            while c < w
                invariant
                    c <= w,
                    r < h,
                    self.wf(),
                    w == self.framew as usize,
                    h == self.frameh as usize,
                    glen == gray@.len(),
                    gray@.len() == w * h,
                    row == row_spec(gray@, w as int, r as int, self.ramp@),
                    line@ == row.take(c as int),
                decreases w - c,
            {
                proof {
                    assert(r * w + c < w * h) by (nonlinear_arith)
                        requires
                            r < h,
                            c < w,
                            0 <= r,
                            0 <= c,
                    ;
                    assert(r * w + c < glen);
                }
                let g = gray[r * w + c];
                let glyph = self.map_grayscale_to_ascii(g);
                push_char(&mut line, glyph);
                proof {
                    assert(row[c as int] == glyph_of(self.ramp@, g));
                    assert(line@ =~= row.take(c as int + 1));
                }
                c += 1;
            }
            push_char(&mut line, '\n');
            proof {
                assert(line@ =~= row);
            }
            let ghost prev = self.curr_frame@;
            self.curr_frame.push(line);
            proof {
                assert(self.frame_view() =~= prev.map_values(|s: String| s@).push(row));
                assert(target.take(r as int + 1) =~= target.take(r as int).push(target[r as int]));
            }
            r += 1;
        }
        proof {
            assert(target.take(h as int) =~= target);
        }
    }
}

/// The glyph of one intensity on a given ramp.
pub open spec fn glyph_of(ramp: Seq<char>, gray: u8) -> char {
    ramp[glyph_index(gray, ramp.len() as int)]
}

/// One rendered row of a frame: the glyphs of the row's intensities,
/// then a line break.
pub open spec fn row_spec(gray: Seq<u8>, w: int, r: int, ramp: Seq<char>) -> Seq<char> {
    Seq::new((w + 1) as nat, |c: int| if c < w {
        glyph_of(ramp, gray[r * w + c])
    } else {
        '\n'
    })
}

/// A whole rendered frame: one row per grid line, top to bottom.
pub open spec fn frame_spec(gray: Seq<u8>, w: int, h: int, ramp: Seq<char>) -> Seq<Seq<char>> {
    Seq::new(h as nat, |r: int| row_spec(gray, w, r, ramp))
}

/// Rendering is a function of the decoded buffer, the grid and the
/// ramp alone: two pipelines that rendered the same buffer with the
/// same grid and ramp hold identical line sequences.
pub proof fn lemma_render_deterministic(f1: Frames, f2: Frames, gray: Seq<u8>)
    requires
        f1.framew == f2.framew,
        f1.frameh == f2.frameh,
        f1.ramp@ == f2.ramp@,
        f1.frame_view() == frame_spec(gray, f1.framew as int, f1.frameh as int, f1.ramp@),
        f2.frame_view() == frame_spec(gray, f2.framew as int, f2.frameh as int, f2.ramp@),
    ensures
        f1.frame_view() == f2.frame_view(),
{
}

/// The shape of a rendered frame: exactly `h` lines, each of exactly
/// `w` glyphs plus one trailing line break, and each glyph is the one
/// the ramp gives for the cell's intensity.
pub proof fn lemma_frame_shape(gray: Seq<u8>, w: int, h: int, ramp: Seq<char>)
    requires
        0 <= w,
        0 <= h,
    ensures
        frame_spec(gray, w, h, ramp).len() == h,
        forall|r: int| 0 <= r < h ==> #[trigger] frame_spec(gray, w, h, ramp)[r].len() == w + 1,
        forall|r: int| 0 <= r < h ==> frame_spec(gray, w, h, ramp)[r][w] == '\n',
        forall|r: int, c: int|
            0 <= r < h && 0 <= c < w ==> frame_spec(gray, w, h, ramp)[r][c] == glyph_of(
                ramp,
                gray[r * w + c],
            ),
{
}

/// Whether the letters of the frame-file prefix stand at position `i`.
pub open spec fn frame_at(s: Seq<char>, i: int) -> bool {
    &&& 0 <= i
    &&& i + 5 <= s.len()
    &&& s[i] == 'f'
    &&& s[i + 1] == 'r'
    &&& s[i + 2] == 'a'
    &&& s[i + 3] == 'm'
    &&& s[i + 4] == 'e'
}

/// The first position at or after `k` where the frame-file prefix
/// stands, or -1 when there is none.
pub open spec fn find_frame(s: Seq<char>, k: int) -> int
    decreases s.len() - k,
{
    if k < 0 || k + 5 > s.len() {
        -1
    } else if frame_at(s, k) {
        k
    } else {
        find_frame(s, k + 1)
    }
}

/// The first position at or after `k` holding a dot, or the length of
/// the sequence when there is none.
pub open spec fn find_dot(s: Seq<char>, k: int) -> int
    decreases s.len() - k,
{
    if k < 0 || k >= s.len() {
        s.len() as int
    } else if s[k] == '.' {
        k
    } else {
        find_dot(s, k + 1)
    }
}

/// The frame index embedded in a file name: the text after the first
/// occurrence of the frame-file prefix and before the following dot,
/// provided it is nonempty, all digits, and fits the platform's word.
pub open spec fn parse_spec(s: Seq<char>) -> Option<usize> {
    let i = find_frame(s, 0);
    if i == -1 {
        None
    } else {
        let rest = s.subrange(i + 5, s.len() as int);
        let ds = rest.take(find_dot(rest, 0));
        if ds.len() >= 1 && (forall|t: int| 0 <= t < ds.len() ==> is_digit(#[trigger] ds[t]))
            && digits_val(ds) <= usize::MAX {
            Some(digits_val(ds) as usize)
        } else {
            None
        }
    }
}

/// Whether every name in a discovered directory parses to an index.
pub open spec fn all_frames_parse(names: Seq<String>) -> bool {
    forall|k: int| 0 <= k < names.len() ==> parse_spec(#[trigger] names[k]@) is Some
}

/// The dot search lands exactly on the first dot: if nothing before
/// `d` is a dot and `d` is a dot or the end, the search from `k`
/// yields `d`.
proof fn lemma_find_dot_exact(s: Seq<char>, k: int, d: int)
    requires
        0 <= k <= d <= s.len(),
        forall|t: int| k <= t < d ==> s[t] != '.',
        d < s.len() ==> s[d] == '.',
    ensures
        find_dot(s, k) == d,
    decreases d - k,
{
    if k < d {
        lemma_find_dot_exact(s, k + 1, d);
    }
}

/// The name built for an index parses back to that index.
pub proof fn lemma_name_round_trip(id: usize)
    ensures
        parse_spec("frame"@ + dec_str(id as nat) + ".jpg"@) == Some(id),
{
    reveal_strlit("frame");
    reveal_strlit(".jpg");
    let ds = dec_str(id as nat);
    let s = "frame"@ + ds + ".jpg"@;
    lemma_dec_str_digits(id as nat);
    lemma_dec_str_round_trip(id as nat);
    assert(frame_at(s, 0));
    assert(find_frame(s, 0) == 0);
    let rest = s.subrange(5, s.len() as int);
    assert(rest =~= ds + ".jpg"@);
    let dlen = ds.len() as int;
    assert forall|t: int| 0 <= t < dlen implies rest[t] != '.' by {
        assert(is_digit(ds[t]));
    }
    assert(rest[dlen] == '.');
    lemma_find_dot_exact(rest, 0, dlen);
    assert(rest.take(dlen) =~= ds);
}

impl Frames {
    /// The file name under which one frame index is stored.
    pub fn frame_file_name(id: usize) -> (r: String)
        ensures
            r@ == "frame"@ + dec_str(id as nat) + ".jpg"@,
    {
        let mut s = String::from_str("frame");
        let digits = u64_to_string(id as u64);
        s.append(digits.as_str());
        s.append(".jpg");
        s
    }

    /// The frame index embedded in one file name, if any.
    pub fn parse_frame_index(name: &str) -> (r: Option<usize>)
        ensures
            r == parse_spec(name@),
    {
        let s = name;
        let n = s.unicode_len();
        if n < 5 {
            proof {
                assert(find_frame(s@, 0) == -1);
            }
            return None;
        }
        let mut i: usize = 0;
        let mut searching = true;
        let mut pos: usize = 0;
        while searching && i <= n - 5
            invariant
                5 <= n,
                i <= n,
                n == s@.len(),
                searching ==> find_frame(s@, 0) == find_frame(s@, i as int),
                !searching ==> pos <= n && frame_at(s@, pos as int) && find_frame(s@, 0)
                    == pos as int,
            decreases (if searching { 1int } else { 0int }), n - i,
        {
            if s.get_char(i) == 'f' && s.get_char(i + 1) == 'r' && s.get_char(i + 2) == 'a'
                && s.get_char(i + 3) == 'm' && s.get_char(i + 4) == 'e' {
                pos = i;
                searching = false;
            } else {
                proof {
                    assert(!frame_at(s@, i as int));
                    assert(find_frame(s@, i as int) == find_frame(s@, i as int + 1));
                }
                i += 1;
            }
        }
        if searching {
            proof {
                assert(i + 5 > n);
                assert(find_frame(s@, i as int) == -1);
            }
            return None;
        }
        let ghost rest = s@.subrange(pos as int + 5, n as int);
        let mut j: usize = pos + 5;
        let mut acc: usize = 0;
        let mut ok = true;
        let mut over = false;
        proof {
            assert(rest.take(0) =~= Seq::<char>::empty());
        }
        while j < n && s.get_char(j) != '.'
            invariant
                pos + 5 <= j <= n,
                n == s@.len(),
                rest == s@.subrange(pos as int + 5, n as int),
                find_dot(rest, 0) == find_dot(rest, j - pos - 5),
                ok == (forall|t: int|
                    0 <= t < j - pos - 5 ==> is_digit(#[trigger] rest[t])),
                ok && !over ==> acc == digits_val(rest.take(j - pos - 5)),
                ok && over ==> digits_val(rest.take(j - pos - 5)) > usize::MAX,
            decreases n - j,
        {
            let c = s.get_char(j);
            let ghost jr = j - pos - 5;
            proof {
                assert(rest[jr] == s@[j as int]);
                assert(rest.take(jr + 1).drop_last() =~= rest.take(jr));
                assert(rest.take(jr + 1).last() == rest[jr]);
                assert(find_dot(rest, jr) == find_dot(rest, jr + 1));
            }
            let cv = c as u32;
            if 48 <= cv && cv <= 57 {
                let dv = (cv - 48) as usize;
                proof {
                    if ok {
                        lemma_digits_val_nonneg(rest.take(jr));
                        assert(digits_val(rest.take(jr + 1)) == digits_val(rest.take(jr)) * 10
                            + digit_val(rest[jr]));
                    }
                }
                if over {
                } else if acc > (usize::MAX - dv) / 10 {
                    over = true;
                    proof {
                        if ok {
                            assert(acc * 10 + dv > usize::MAX);
                        }
                    }
                } else {
                    acc = acc * 10 + dv;
                }
            } else {
                ok = false;
                proof {
                    assert(!is_digit(rest[jr]));
                }
            }
            j += 1;
        }
        let ghost jr = j - pos - 5;
        proof {
            if j < n {
                assert(rest[jr] == s@[j as int]);
            }
            assert(find_dot(rest, jr) == jr);
        }
        let ghost ds = rest.take(jr);
        if ok && !over && j > pos + 5 {
            proof {
                assert forall|t: int| 0 <= t < ds.len() implies is_digit(#[trigger] ds[t]) by {
                    assert(ds[t] == rest[t]);
                }
                assert(digits_val(ds) == acc);
                assert(parse_spec(s@) == Some(acc));
            }
            Some(acc)
        } else {
            proof {
                if !ok {
                    let t0 = choose|t: int| 0 <= t < jr && !is_digit(#[trigger] rest[t]);
                    assert(ds[t0] == rest[t0]);
                    assert(!is_digit(ds[t0]));
                } else if over {
                    assert(digits_val(ds) > usize::MAX);
                } else {
                    assert(ds.len() == 0);
                }
                assert(parse_spec(s@) is None);
            }
            None
        }
    }

    /// Records the highest frame index named by the given directory
    /// entries. Succeeds exactly when there is at least one entry and
    /// every entry parses; on failure nothing is recorded.
    pub fn discover_frames(&mut self, names: &Vec<String>) -> (r: bool)
        ensures
            final(self).framew == old(self).framew,
            final(self).frameh == old(self).frameh,
            final(self).ramp@ == old(self).ramp@,
            final(self).curr_frame@ == old(self).curr_frame@,
            r == (names@.len() > 0 && all_frames_parse(names@)),
            r ==> exists|k: int|
                0 <= k < names@.len() && parse_spec(names@[k]@) == Some(final(self).max_frame_id),
            r ==> forall|k: int|
                0 <= k < names@.len() ==> parse_spec(#[trigger] names@[k]@).unwrap()
                    <= final(self).max_frame_id,
            !r ==> final(self).max_frame_id == old(self).max_frame_id,
    {
        if names.len() == 0 {
            return false;
        }
        let mut maxv: usize = 0;
        let mut i: usize = 0;
        while i < names.len()
            invariant
                i <= names@.len(),
                names@.len() > 0,
                forall|k: int| 0 <= k < i ==> parse_spec(#[trigger] names@[k]@) is Some,
                forall|k: int|
                    0 <= k < i ==> parse_spec(#[trigger] names@[k]@).unwrap() <= maxv,
                i > 0 ==> exists|k: int|
                    0 <= k < i && parse_spec(names@[k]@) == Some(maxv),
                i == 0 ==> maxv == 0,
                self == old(self),
            decreases names@.len() - i,
        {
            let parsed = Self::parse_frame_index(names[i].as_str());
            match parsed {
                Option::None => {
                    return false;
                },
                Option::Some(v) => {
                    if v > maxv || i == 0 {
                        maxv = v;
                    }
                },
            }
            i += 1;
        }
        self.max_frame_id = maxv;
        true
    }
}

} // verus!
