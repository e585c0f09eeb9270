//! Styled output: text built up in parts, each run of text carrying the
//! style that was set before it was added.
use vstd::prelude::*;
use vstd::string::StringExecFns;
use vstd::utf8::encode_utf8;
use std::ops::Range;
use chrono::Timelike;
use crate::colors::{Color, ColorPair};
use crate::text::{push_char, push_digit, views};

verus! {

/// The length of a text in bytes, as `str::len` gives it.
pub open spec fn byte_len(s: Seq<char>) -> usize {
    encode_utf8(s).len() as usize
}

/// All the parts, one after the other.
pub open spec fn concat(parts: Seq<Seq<char>>) -> Seq<char>
    decreases parts.len(),
{
    if parts.len() == 0 {
        Seq::empty()
    } else {
        concat(parts.drop_last()) + parts.last()
    }
}

/// The style recorded at byte offset `at`, if any (styles are recorded in
/// increasing offsets, so only the last one can be at the current offset).
pub open spec fn style_at(styles: Seq<(usize, ColorPair)>, at: usize) -> Option<ColorPair> {
    if styles.len() > 0 && styles.last().0 == at {
        Some(styles.last().1)
    } else {
        None
    }
}

/// The style at `at`, or `fresh` when none is recorded there.
pub open spec fn current(styles: Seq<(usize, ColorPair)>, at: usize, fresh: ColorPair) -> ColorPair {
    match style_at(styles, at) {
        Some(c) => c,
        None => fresh,
    }
}

/// The styles with `v` recorded at `at`, replacing one recorded there.
pub open spec fn put(styles: Seq<(usize, ColorPair)>, at: usize, v: ColorPair) -> Seq<
    (usize, ColorPair),
> {
    if style_at(styles, at) is Some {
        styles.update(styles.len() - 1, (at, v))
    } else {
        styles.push((at, v))
    }
}

/// The plain style: white on the default background.
pub open spec fn plain() -> ColorPair {
    ColorPair { bold: false, underline: false, fg: Color::White, bg: Color::Black }
}

/// Text with the style of each of its runs; each range is in bytes.
#[derive(Debug, PartialEq, Clone)]
pub struct Output {
    pub data: String,
    pub colors: Vec<(Range<usize>, ColorPair)>,
}

/// Builds an [`Output`] one part at a time.
#[derive(Debug)]
pub struct OutputBuilder {
    parts: Vec<String>,
    colors: Vec<(usize, ColorPair)>,
    index: usize,
}

/// Relies on `chrono::Local::now` and `chrono::Timelike`: the local time of
/// day now, as hour (0 to 23), minute (0 to 59) and second (0 to 59).
#[verifier::external_body]
fn local_time() -> (r: (u32, u32, u32))
    ensures
        r.0 < 24,
        r.1 < 60,
        r.2 < 60,
{
    let now = chrono::Local::now();
    (now.hour(), now.minute(), now.second())
}

/// Two decimal digits of `n`.
pub open spec fn two_digits(n: u32) -> Seq<char> {
    seq![((n / 10) as int + '0' as int) as char, ((n % 10) as int + '0' as int) as char]
}

/// The time stamp `HHMMSS ` of a time of day.
pub open spec fn stamp_text(h: u32, m: u32, s: u32) -> Seq<char> {
    two_digits(h) + two_digits(m) + two_digits(s) + seq![' ']
}

fn push_two_digits(s: &mut String, n: u32)
    requires
        n < 100,
    ensures
        final(s)@ == old(s)@ + two_digits(n),
{
    push_digit(s, n / 10);
    push_digit(s, n % 10);
    assert(final(s)@ =~= old(s)@ + two_digits(n));
}

/// The time stamp `HHMMSS ` of the given time of day.
pub fn format_stamp(h: u32, m: u32, s: u32) -> (r: String)
    requires
        h < 100,
        m < 100,
        s < 100,
    ensures
        r@ == stamp_text(h, m, s),
{
    let mut out = String::new();
    push_two_digits(&mut out, h);
    push_two_digits(&mut out, m);
    push_two_digits(&mut out, s);
    push_char(&mut out, ' ');
    assert(out@ =~= stamp_text(h, m, s));
    out
}

impl Output {
    /// An empty builder.
    pub fn new() -> (r: OutputBuilder)
        ensures
            r.wf(),
            r.parts() == Seq::<Seq<char>>::empty(),
            r.styles() == Seq::<(usize, ColorPair)>::empty(),
            r.index() == 0,
    {
        OutputBuilder::new()
    }

    /// A builder that starts with the local time of day, as `HHMMSS `.
    pub fn stamp() -> (r: OutputBuilder)
        ensures
            r.wf(),
            r.parts().len() == 1,
            exists|h: u32, m: u32, s: u32|
                h < 24 && m < 60 && s < 60 && r.parts()[0] == stamp_text(h, m, s),
            r.styles() == seq![(0usize, plain())],
    {
        let (h, m, s) = local_time();
        let ts = format_stamp(h, m, s);
        let mut builder = OutputBuilder::new();
        builder.add(ts.as_str());
        assert(builder.parts()[0] == stamp_text(h, m, s));
        builder
    }
}

impl OutputBuilder {
    /// The parts added, in order.
    pub closed spec fn parts(&self) -> Seq<Seq<char>> {
        views(self.parts@)
    }

    /// The recorded styles, by byte offset.
    pub closed spec fn styles(&self) -> Seq<(usize, ColorPair)> {
        self.colors@
    }

    /// The byte offset where the next part goes.
    pub closed spec fn index(&self) -> usize {
        self.index
    }

    /// Offsets strictly increase and none lies beyond the current one.
    pub open spec fn wf(&self) -> bool {
        &&& forall|i: int, j: int|
            0 <= i < j < self.styles().len() ==> self.styles()[i].0 < self.styles()[j].0
        &&& forall|i: int| 0 <= i < self.styles().len() ==> self.styles()[i].0 <= self.index()
    }

    pub fn new() -> (r: OutputBuilder)
        ensures
            r.wf(),
            r.parts() == Seq::<Seq<char>>::empty(),
            r.styles() == Seq::<(usize, ColorPair)>::empty(),
            r.index() == 0,
    {
        let r = OutputBuilder { parts: Vec::new(), colors: Vec::new(), index: 0 };
        assert(r.parts() =~= Seq::<Seq<char>>::empty());
        r
    }

    fn current_style(&self, fresh: ColorPair) -> (r: ColorPair)
        ensures
            r == current(self.styles(), self.index(), fresh),
    {
        let n = self.colors.len();
        if n > 0 && self.colors[n - 1].0 == self.index {
            self.colors[n - 1].1
        } else {
            fresh
        }
    }

    fn put_style(&mut self, v: ColorPair)
        requires
            old(self).wf(),
        ensures
            final(self).wf(),
            final(self).styles() == put(old(self).styles(), old(self).index(), v),
            final(self).parts() == old(self).parts(),
            final(self).index() == old(self).index(),
    {
        let n = self.colors.len();
        if n > 0 && self.colors[n - 1].0 == self.index {
            self.colors.set(n - 1, (self.index, v));
        } else {
            self.colors.push((self.index, v));
        }
    }

    /// Makes the style at the current offset bold.
    pub fn bold(&mut self)
        requires
            old(self).wf(),
        ensures
            final(self).wf(),
            final(self).styles() == put(
                old(self).styles(),
                old(self).index(),
                ColorPair {
                    bold: true,
                    ..current(
                        old(self).styles(),
                        old(self).index(),
                        ColorPair { bold: true, ..plain() },
                    )
                },
            ),
            final(self).parts() == old(self).parts(),
            final(self).index() == old(self).index(),
    {
        let c = self.current_style(ColorPair::new(true, Color::White, None));
        self.put_style(ColorPair { bold: true, ..c });
    }

    /// Underlines the style at the current offset.
    pub fn underline(&mut self)
        requires
            old(self).wf(),
        ensures
            final(self).wf(),
            final(self).styles() == put(
                old(self).styles(),
                old(self).index(),
                ColorPair {
                    underline: true,
                    ..current(old(self).styles(), old(self).index(), plain())
                },
            ),
            final(self).parts() == old(self).parts(),
            final(self).index() == old(self).index(),
    {
        let c = self.current_style(ColorPair::new(false, Color::White, None));
        self.put_style(ColorPair { underline: true, ..c });
    }

    /// Sets the foreground colour of the style at the current offset.
    pub fn fg(&mut self, c: Color)
        requires
            old(self).wf(),
        ensures
            final(self).wf(),
            final(self).styles() == put(
                old(self).styles(),
                old(self).index(),
                ColorPair {
                    fg: c,
                    ..current(old(self).styles(), old(self).index(), ColorPair { fg: c, ..plain() })
                },
            ),
            final(self).parts() == old(self).parts(),
            final(self).index() == old(self).index(),
    {
        let cur = self.current_style(ColorPair::new(false, c, None));
        self.put_style(ColorPair { fg: c, ..cur });
    }

    /// Sets the background colour of the style at the current offset.
    pub fn bg(&mut self, c: Color)
        requires
            old(self).wf(),
        ensures
            final(self).wf(),
            final(self).styles() == put(
                old(self).styles(),
                old(self).index(),
                ColorPair {
                    bg: c,
                    ..current(old(self).styles(), old(self).index(), ColorPair { bg: c, ..plain() })
                },
            ),
            final(self).parts() == old(self).parts(),
            final(self).index() == old(self).index(),
    {
        let cur = self.current_style(ColorPair::new(false, Color::White, Some(c)));
        self.put_style(ColorPair { bg: c, ..cur });
    }

    /// Appends `s` in the style at the current offset (plain when none was
    /// set) and moves the offset past it.
    pub fn add(&mut self, s: &str)
        requires
            old(self).wf(),
            old(self).index() + byte_len(s@) <= usize::MAX,
        ensures
            final(self).wf(),
            final(self).styles() == put(
                old(self).styles(),
                old(self).index(),
                current(old(self).styles(), old(self).index(), plain()),
            ),
            final(self).parts() == old(self).parts().push(s@),
            final(self).index() == old(self).index() + byte_len(s@),
    {
        let c = self.current_style(ColorPair::new(false, Color::White, None));
        self.put_style(c);
        let part = s.to_owned();
        let len = s.len();
        proof {
            assert(views(self.parts@.push(part)) =~= views(self.parts@).push(s@));
        }
        self.parts.push(part);
        self.index = self.index + len;
    }

    /// The text and the byte range of each styled run. The `i`-th style
    /// covers the `i`-th part; the end of a range saturates at `usize::MAX`.
    pub fn build(&self) -> (r: Output)
        ensures
            r.data@ == concat(self.parts()),
            r.colors@.len() == if self.styles().len() < self.parts().len() {
                self.styles().len()
            } else {
                self.parts().len()
            },
            forall|i: int|
                0 <= i < r.colors@.len() ==> {
                    &&& (#[trigger] r.colors@[i]).0.start == self.styles()[i].0
                    &&& r.colors@[i].0.end == if self.styles()[i].0 + byte_len(self.parts()[i])
                        <= usize::MAX {
                        self.styles()[i].0 + byte_len(self.parts()[i])
                    } else {
                        usize::MAX as int
                    }
                    &&& r.colors@[i].1 == self.styles()[i].1
                },
    {
        let n = if self.colors.len() < self.parts.len() {
            self.colors.len()
        } else {
            self.parts.len()
        };
        let mut colors: Vec<(Range<usize>, ColorPair)> = Vec::new();
        let mut i: usize = 0;
        while i < n
            invariant
                n <= self.colors@.len(),
                n <= self.parts@.len(),
                i <= n,
                colors@.len() == i,
                forall|j: int|
                    0 <= j < i ==> {
                        &&& (#[trigger] colors@[j]).0.start == self.styles()[j].0
                        &&& colors@[j].0.end == if self.styles()[j].0 + byte_len(self.parts()[j])
                            <= usize::MAX {
                            self.styles()[j].0 + byte_len(self.parts()[j])
                        } else {
                            usize::MAX as int
                        }
                        &&& colors@[j].1 == self.styles()[j].1
                    },
            decreases n - i,
        {
            let (k, v) = self.colors[i];
            let len = self.parts[i].as_str().len();
            let end = k.saturating_add(len);
            colors.push((Range { start: k, end }, v));
            i += 1;
        }
        let mut data = String::new();
        let mut j: usize = 0;
        while j < self.parts.len()
            invariant
                j <= self.parts@.len(),
                data@ == concat(self.parts().subrange(0, j as int)),
            decreases self.parts@.len() - j,
        {
            proof {
                assert(self.parts().subrange(0, j + 1).drop_last() =~= self.parts().subrange(
                    0,
                    j as int,
                ));
            }
            data.append(self.parts[j].as_str());
            j += 1;
        }
        assert(self.parts().subrange(0, self.parts@.len() as int) =~= self.parts());
        Output { data, colors }
    }
}

} // verus!
