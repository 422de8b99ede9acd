//! The process/location renderer: right-justified PID, optional thread
//! name, optional bracketed target, and the source `file:line`, with the
//! file path trimmed per the configured mode.

use vstd::prelude::*;
use vstd::string::StrSliceExecFns;
use vstd::string::StringExecFns;
use crate::text::{
    line_break_free, spec_decimal, spec_pad_left, spec_starts_with, lemma_decimal_line_break_free,
    lemma_line_break_free_concat, lemma_pad_left_line_break_free, lemma_skip_line_break_free,
    pad_left, str_starts_with, u64_decimal,
};

verus! {

/// How the source file path is shown: verbatim, only its last component,
/// or with a configured prefix stripped (verbatim when the prefix does
/// not match).
pub enum PathMode {
    Full,
    Basename,
    StripPrefix(String),
}

impl Clone for PathMode {
    fn clone(&self) -> (r: Self)
        ensures
            r == *self,
    {
        match self {
            PathMode::Full => PathMode::Full,
            PathMode::Basename => PathMode::Basename,
            PathMode::StripPrefix(p) => PathMode::StripPrefix(p.clone()),
        }
    }
}

/// Everything after the last `/` of `s`; `s` itself when it has none.
pub open spec fn spec_basename(s: Seq<char>) -> Seq<char>
    decreases s.len(),
{
    if s.len() == 0 {
        s
    } else if s.last() == '/' {
        Seq::empty()
    } else {
        spec_basename(s.drop_last()) + seq![s.last()]
    }
}

/// The suffix of `s` from any position with no `/` at or after it and a
/// `/` (or the start of `s`) just before it is the basename of `s`.
proof fn lemma_basename_suffix(s: Seq<char>, start: int)
    requires
        0 <= start <= s.len(),
        start == 0 || s[start - 1] == '/',
        forall|k: int| start <= k < s.len() ==> s[k] != '/',
    ensures
        spec_basename(s) == s.skip(start),
    decreases s.len(),
{
    if s.len() == 0 {
        assert(spec_basename(s) =~= s.skip(start));
    } else if s.last() == '/' {
        assert(start == s.len());
        assert(spec_basename(s) =~= s.skip(start));
    } else {
        assert(start < s.len());
        let t = s.drop_last();
        lemma_basename_suffix(t, start);
        assert(spec_basename(s) =~= s.skip(start));
    }
}

/// The file path as the mode shows it.
pub open spec fn spec_trimmed(file: Seq<char>, mode: PathMode) -> Seq<char> {
    match mode {
        PathMode::Full => file,
        PathMode::Basename => spec_basename(file),
        PathMode::StripPrefix(p) => if spec_starts_with(file, p@) {
            file.skip(p@.len() as int)
        } else {
            file
        },
    }
}

/// The last path component of `s`: everything after its last `/`.
fn basename_of(s: &str) -> (r: String)
    ensures
        r@ == spec_basename(s@),
{
    let n = s.unicode_len();
    let mut start: usize = 0;
    let mut i: usize = 0;
    while i < n
        invariant
            i <= n,
            n == s@.len(),
            start <= i,
            start == 0 || s@[start - 1] == '/',
            forall|k: int| start <= k < i ==> s@[k] != '/',
        decreases n - i,
    {
        if s.get_char(i) == '/' {
            start = i + 1;
        }
        i = i + 1;
    }
    let tail = s.substring_char(start, n);
    proof {
        lemma_basename_suffix(s@, start as int);
        assert(tail@ =~= s@.skip(start as int));
    }
    String::from_str(tail)
}

/// Applies the path mode to `file`.
pub fn trim_path(file: &str, mode: &PathMode) -> (r: String)
    ensures
        r@ == spec_trimmed(file@, *mode),
{
    match mode {
        PathMode::Full => String::from_str(file),
        PathMode::Basename => basename_of(file),
        PathMode::StripPrefix(p) => {
            if str_starts_with(file, p.as_str()) {
                let n = file.unicode_len();
                let plen = p.as_str().unicode_len();
                let tail = file.substring_char(plen, n);
                proof {
                    assert(tail@ =~= file@.skip(p@.len() as int));
                }
                String::from_str(tail)
            } else {
                String::from_str(file)
            }
        },
    }
}

/// The data the process/location block renders, with its toggles.
pub struct FormatProcessData {
    pub pid: u32,
    pub thread_name: Option<String>,
    pub target: String,
    pub file: Option<String>,
    pub line: Option<u32>,
    pub with_thread_names: bool,
    pub with_target: bool,
    pub path_mode: PathMode,
}

/// The block's fixed layout: PID right-justified to width five, then a
/// space and the thread name when enabled and present, then a space and
/// the bracketed target when enabled, then a space and `file:line` with
/// an absent file or line rendered as nothing.
pub open spec fn spec_process_block(d: FormatProcessData) -> Seq<char> {
    spec_pad_left(spec_decimal(d.pid as nat), 5, ' ') + (match d.thread_name {
        Some(t) => if d.with_thread_names {
            seq![' '] + t@
        } else {
            Seq::empty()
        },
        None => Seq::empty(),
    }) + (if d.with_target {
        seq![' ', '['] + d.target@ + seq![']']
    } else {
        Seq::<char>::empty()
    }) + seq![' '] + spec_trimmed(
        match d.file {
            Some(f) => f@,
            None => Seq::empty(),
        },
        d.path_mode,
    ) + seq![':'] + (match d.line {
        Some(l) => spec_decimal(l as nat),
        None => Seq::<char>::empty(),
    })
}

/// The basename of a terminator-free path is terminator-free.
proof fn lemma_basename_line_break_free(s: Seq<char>)
    requires
        line_break_free(s),
    ensures
        line_break_free(spec_basename(s)),
    decreases s.len(),
{
    if s.len() > 0 && s.last() != '/' {
        lemma_basename_line_break_free(s.drop_last());
        assert(s.last() != '\n');
        lemma_line_break_free_concat(spec_basename(s.drop_last()), seq![s.last()]);
    }
}

/// A trimmed terminator-free path is terminator-free.
pub proof fn lemma_trimmed_line_break_free(file: Seq<char>, mode: PathMode)
    requires
        line_break_free(file),
    ensures
        line_break_free(spec_trimmed(file, mode)),
{
    match mode {
        PathMode::Full => {
        },
        PathMode::Basename => {
            lemma_basename_line_break_free(file);
        },
        PathMode::StripPrefix(p) => {
            if spec_starts_with(file, p@) {
                lemma_skip_line_break_free(file, p@.len() as int);
            }
        },
    }
}

/// A rendered process/location block holds no line terminator when the
/// thread name, target and file carry none.
pub proof fn lemma_process_block_line_break_free(d: FormatProcessData)
    requires
        d.thread_name matches Some(t) ==> line_break_free(t@),
        line_break_free(d.target@),
        d.file matches Some(f) ==> line_break_free(f@),
    ensures
        line_break_free(spec_process_block(d)),
{
    lemma_decimal_line_break_free(d.pid as nat);
    lemma_pad_left_line_break_free(spec_decimal(d.pid as nat), 5, ' ');
    let a = spec_pad_left(spec_decimal(d.pid as nat), 5, ' ');
    let tpart = match d.thread_name {
        Some(t) => if d.with_thread_names {
            seq![' '] + t@
        } else {
            Seq::<char>::empty()
        },
        None => Seq::<char>::empty(),
    };
    match d.thread_name {
        Some(t) => {
            if d.with_thread_names {
                lemma_line_break_free_concat(seq![' '], t@);
            }
        },
        None => {
        },
    }
    assert(line_break_free(tpart));
    let gpart = if d.with_target {
        seq![' ', '['] + d.target@ + seq![']']
    } else {
        Seq::<char>::empty()
    };
    if d.with_target {
        lemma_line_break_free_concat(seq![' ', '['], d.target@);
        lemma_line_break_free_concat(seq![' ', '['] + d.target@, seq![']']);
    }
    assert(line_break_free(gpart));
    let fview = match d.file {
        Some(f) => f@,
        None => Seq::<char>::empty(),
    };
    lemma_trimmed_line_break_free(fview, d.path_mode);
    let lpart = match d.line {
        Some(l) => spec_decimal(l as nat),
        None => Seq::<char>::empty(),
    };
    match d.line {
        Some(l) => lemma_decimal_line_break_free(l as nat),
        None => {
        },
    }
    assert(line_break_free(lpart));
    let b = a + tpart;
    let c = b + gpart;
    let e = c + seq![' '];
    let f = e + spec_trimmed(fview, d.path_mode);
    let g = f + seq![':'];
    lemma_line_break_free_concat(a, tpart);
    lemma_line_break_free_concat(b, gpart);
    lemma_line_break_free_concat(c, seq![' ']);
    lemma_line_break_free_concat(e, spec_trimmed(fview, d.path_mode));
    lemma_line_break_free_concat(f, seq![':']);
    lemma_line_break_free_concat(g, lpart);
}

impl FormatProcessData {
    /// Renders the block. It never emits the closing `]`; the line
    /// assembler appends exactly one `] ` after it.
    pub fn render(&self) -> (r: String)
        ensures
            r@ == spec_process_block(*self),
    {
        proof {
            reveal_strlit(" ");
            reveal_strlit(" [");
            reveal_strlit("]");
            reveal_strlit(":");
            reveal_strlit("");
            assert(""@ =~= Seq::<char>::empty());
        }
        let pid_digits = u64_decimal(self.pid as u64);
        let mut out = pad_left(pid_digits.as_str(), 5, " ");
        if self.with_thread_names {
            if let Some(name) = &self.thread_name {
                out.append(" ");
                out.append(name.as_str());
            }
        }
        if self.with_target {
            out.append(" [");
            out.append(self.target.as_str());
            out.append("]");
        }
        out.append(" ");
        let trimmed = match &self.file {
            Some(f) => trim_path(f.as_str(), &self.path_mode),
            None => trim_path("", &self.path_mode),
        };
        out.append(trimmed.as_str());
        out.append(":");
        if let Some(line) = self.line {
            let line_digits = u64_decimal(line as u64);
            out.append(line_digits.as_str());
        }
        proof {
            assert(out@ =~= spec_process_block(*self));
        }
        out
    }
}

} // verus!
