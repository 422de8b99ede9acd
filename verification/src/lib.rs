//! A glog-inspired log-line renderer: given one log event (severity, message,
//! named fields) and the chain of active spans, it builds a single
//! deterministic text line in the classic glog layout.

pub mod clock;
pub mod fields;
pub mod level;
pub mod process;
pub mod span_context;
pub mod text;

use vstd::prelude::*;
use vstd::string::StringExecFns;
use crate::clock::{
    ClockParts, Timer, format_timestamp, lemma_timestamp_line_break_free, spec_timestamp,
    timer_now,
};
use crate::fields::{
    Field, FieldConfig, GlogFields, field_line_break_free, lemma_fields_text_line_break_free,
    spec_fields_text,
};
use crate::level::{FmtLevel, FormatLevelChars, Severity, spec_level_text};
use crate::process::{
    FormatProcessData, PathMode, lemma_process_block_line_break_free, spec_process_block,
};
use crate::span_context::{
    SpanEntry, lemma_group_absent_without_contribution, lemma_span_group_line_break_free,
    render_span_context, span_line_break_free, spec_contributes, spec_span_group,
};
use crate::text::{line_break_free, lemma_line_break_free_concat};

verus! {

/// An opaque text-attribute token. With styling disabled (the only mode this
/// renderer ships), every token is the null style: its prefix, infix and
/// suffix are all empty, so composing or concatenating it changes no bytes.
#[derive(Clone, Copy)]
pub struct Style;

impl Style {
    pub fn new() -> (r: Style)
        ensures
            r == (Style {  }),
    {
        Style {  }
    }

    /// The bold attribute of the null style: still the null style.
    pub fn bold(&self) -> (r: Style)
        ensures
            r == (Style {  }),
    {
        Style {  }
    }

    /// What opening this style writes: nothing.
    pub fn prefix(&self) -> (r: &'static str)
        ensures
            r@ == Seq::<char>::empty(),
    {
        proof {
            reveal_strlit("");
            assert(""@ =~= Seq::<char>::empty());
        }
        ""
    }

    /// What switching from this style to `next` writes: nothing.
    pub fn infix(&self, next: Style) -> (r: &'static str)
        ensures
            r@ == Seq::<char>::empty(),
    {
        let _unused: Style = next;
        proof {
            reveal_strlit("");
            assert(""@ =~= Seq::<char>::empty());
        }
        ""
    }

    /// What closing this style writes: nothing.
    pub fn suffix(&self) -> (r: &'static str)
        ensures
            r@ == Seq::<char>::empty(),
    {
        proof {
            reveal_strlit("");
            assert(""@ =~= Seq::<char>::empty());
        }
        ""
    }
}

/// One log occurrence: its severity, static source location and the
/// named values declared at the call site, in declaration order.
pub struct Event {
    pub severity: Severity,
    pub target: String,
    pub file: Option<String>,
    pub line: Option<u32>,
    pub fields: Vec<Field>,
}

/// Why a line could not be rendered.
#[derive(Clone, Copy, Debug, PartialEq, Eq, Structural)]
pub enum FormatError {
    /// The local clock was selected and no local offset could be
    /// resolved; the whole line fails rather than silently falling back
    /// to UTC.
    LocalTimeUnavailable,
}

/// The line formatter's configuration snapshot: which clock stamps the
/// line, which optional sections show, how file paths are trimmed and
/// which severity table is used. Read-only during rendering.
pub struct Glog {
    pub timer: Timer,
    pub with_span_context: bool,
    pub with_thread_names: bool,
    pub with_target: bool,
    pub with_span_names: bool,
    pub path_mode: PathMode,
    pub level_chars: FormatLevelChars,
}

impl Default for Glog {
    /// UTC stamps, span context with names, no thread names, no target,
    /// full paths, the classic severity table.
    fn default() -> (r: Glog)
        ensures
            r.timer is Utc,
            r.with_span_context,
            !r.with_thread_names,
            !r.with_target,
            r.with_span_names,
            r.path_mode is Full,
            r.level_chars.trace@ == "T"@,
            r.level_chars.debug@ == "D"@,
            r.level_chars.info@ == "I"@,
            r.level_chars.warn@ == "W"@,
            r.level_chars.error@ == "E"@,
    {
        Glog {
            timer: Timer::Utc,
            with_span_context: true,
            with_thread_names: false,
            with_target: false,
            with_span_names: true,
            path_mode: PathMode::Full,
            level_chars: FormatLevelChars::const_default(),
        }
    }
}

impl Glog {
    /// Selects the clock that stamps each line.
    pub fn with_timer(self, timer: Timer) -> (r: Glog)
        ensures
            r == (Glog { timer, ..self }),
    {
        Glog { timer, ..self }
    }

    /// Sets whether the current thread's name is shown.
    pub fn with_thread_names(self, with_thread_names: bool) -> (r: Glog)
        ensures
            r == (Glog { with_thread_names, ..self }),
    {
        Glog { with_thread_names, ..self }
    }

    /// Sets whether the event's target is shown, bracketed.
    pub fn with_target(self, with_target: bool) -> (r: Glog)
        ensures
            r == (Glog { with_target, ..self }),
    {
        Glog { with_target, ..self }
    }

    /// Sets whether span names are shown; without them the spans'
    /// fields flatten into one list.
    pub fn with_span_names(self, with_span_names: bool) -> (r: Glog)
        ensures
            r == (Glog { with_span_names, ..self }),
    {
        Glog { with_span_names, ..self }
    }

    /// Sets whether the span-context group is shown at all.
    pub fn with_span_context(self, with_span_context: bool) -> (r: Glog)
        ensures
            r == (Glog { with_span_context, ..self }),
    {
        Glog { with_span_context, ..self }
    }

    /// Selects how source file paths are trimmed.
    pub fn with_path_mode(self, path_mode: PathMode) -> (r: Glog)
        ensures
            r == (Glog { path_mode, ..self }),
    {
        Glog { path_mode, ..self }
    }
}

/// The whole line: severity text, timestamp, one space, the
/// process/location block, `] `, the span-context group (only when
/// enabled; it carries its own trailing `] `), the event's field tail,
/// and exactly one terminating newline.
pub open spec fn spec_line(
    g: Glog,
    cfg: FieldConfig,
    e: Event,
    spans: Seq<SpanEntry>,
    now: ClockParts,
    pid: u32,
    thread_name: Option<String>,
) -> Seq<char> {
    spec_level_text(e.severity, g.level_chars) + spec_timestamp(now) + seq![' ']
        + spec_process_block(
        FormatProcessData {
            pid,
            thread_name,
            target: e.target,
            file: e.file,
            line: e.line,
            with_thread_names: g.with_thread_names,
            with_target: g.with_target,
            path_mode: g.path_mode,
        },
    ) + seq![']', ' '] + (if g.with_span_context {
        spec_span_group(spans, g.with_span_names)
    } else {
        Seq::<char>::empty()
    }) + spec_fields_text(e.fields@, cfg) + seq!['\n']
}

impl Glog {
    /// Renders one line for the given instant. A pure function of its
    /// inputs: equal inputs give byte-identical output.
    pub fn format_event_at(
        &self,
        fields_fmt: &GlogFields,
        event: &Event,
        spans: &Vec<SpanEntry>,
        now: &ClockParts,
        pid: u32,
        thread_name: &Option<String>,
    ) -> (r: String)
        ensures
            r@ == spec_line(*self, fields_fmt.config, *event, spans@, *now, pid, *thread_name),
    {
        proof {
            reveal_strlit(" ");
            reveal_strlit("] ");
            reveal_strlit("\n");
        }
        let level = FmtLevel::format_level(event.severity, self.level_chars, false);
        let mut out = level.render();
        let stamp = format_timestamp(now);
        out.append(stamp.as_str());
        out.append(" ");
        let tn: Option<String> = match thread_name {
            Some(t) => Some(t.clone()),
            None => None,
        };
        let file: Option<String> = match &event.file {
            Some(f) => Some(f.clone()),
            None => None,
        };
        let data = FormatProcessData {
            pid,
            thread_name: tn,
            target: event.target.clone(),
            file,
            line: event.line,
            with_thread_names: self.with_thread_names,
            with_target: self.with_target,
            path_mode: self.path_mode.clone(),
        };
        let block = data.render();
        out.append(block.as_str());
        out.append("] ");
        if self.with_span_context {
            if let Some(group) = render_span_context(spans, self.with_span_names, false) {
                out.append(group.as_str());
            }
        }
        let tail = fields_fmt.format_fields(&event.fields);
        out.append(tail.as_str());
        out.append("\n");
        proof {
            assert(out@ =~= spec_line(
                *self,
                fields_fmt.config,
                *event,
                spans@,
                *now,
                pid,
                *thread_name,
            ));
        }
        out
    }

    /// Renders one line, stamping it from the configured clock. With the
    /// UTC clock this always succeeds; with the local clock it fails,
    /// and renders nothing, when no local offset can be resolved.
    pub fn format_event(
        &self,
        fields_fmt: &GlogFields,
        event: &Event,
        spans: &Vec<SpanEntry>,
        pid: u32,
        thread_name: &Option<String>,
    ) -> (r: Result<String, FormatError>)
        ensures
            self.timer is Utc ==> r is Ok,
            r matches Err(e) ==> self.timer is Local && e == FormatError::LocalTimeUnavailable,
            r matches Ok(line) ==> exists|now: ClockParts|
                now.wf() && line@ == spec_line(
                    *self,
                    fields_fmt.config,
                    *event,
                    spans@,
                    now,
                    pid,
                    *thread_name,
                ),
    {
        match timer_now(&self.timer) {
            Some(now) => {
                let line = self.format_event_at(fields_fmt, event, spans, &now, pid, thread_name);
                proof {
                    assert(now.wf() && line@ == spec_line(
                        *self,
                        fields_fmt.config,
                        *event,
                        spans@,
                        now,
                        pid,
                        *thread_name,
                    ));
                }
                Ok(line)
            },
            None => Err(FormatError::LocalTimeUnavailable),
        }
    }
}

/// Whether every text an event contributes to the line is free of line
/// terminators.
pub open spec fn event_line_break_free(e: Event) -> bool {
    &&& line_break_free(e.target@)
    &&& (e.file matches Some(f) ==> line_break_free(f@))
    &&& forall|i: int| 0 <= i < e.fields@.len() ==> field_line_break_free(#[trigger] e.fields@[i])
}

/// Whether every entry of a severity table is free of line terminators.
pub open spec fn chars_line_break_free(c: FormatLevelChars) -> bool {
    &&& line_break_free(c.trace@)
    &&& line_break_free(c.debug@)
    &&& line_break_free(c.info@)
    &&& line_break_free(c.warn@)
    &&& line_break_free(c.error@)
}

/// Law: for every configuration, the rendered line ends with exactly
/// one line terminator — the final newline — provided no input text
/// carries a terminator of its own (an embedded newline in a field
/// value would break this, which is why the inputs are restricted).
pub proof fn lemma_line_single_terminator(
    g: Glog,
    cfg: FieldConfig,
    e: Event,
    spans: Seq<SpanEntry>,
    now: ClockParts,
    pid: u32,
    thread_name: Option<String>,
)
    requires
        chars_line_break_free(g.level_chars),
        event_line_break_free(e),
        forall|i: int| 0 <= i < spans.len() ==> span_line_break_free(#[trigger] spans[i]),
        thread_name matches Some(t) ==> line_break_free(t@),
    ensures
        spec_line(g, cfg, e, spans, now, pid, thread_name).len() > 0,
        spec_line(g, cfg, e, spans, now, pid, thread_name).last() == '\n',
        forall|k: int|
            0 <= k < spec_line(g, cfg, e, spans, now, pid, thread_name).len() - 1 ==> spec_line(
                g,
                cfg,
                e,
                spans,
                now,
                pid,
                thread_name,
            )[k] != '\n',
{
    let lvl = spec_level_text(e.severity, g.level_chars);
    assert(line_break_free(lvl));
    lemma_timestamp_line_break_free(now);
    let data = FormatProcessData {
        pid,
        thread_name,
        target: e.target,
        file: e.file,
        line: e.line,
        with_thread_names: g.with_thread_names,
        with_target: g.with_target,
        path_mode: g.path_mode,
    };
    lemma_process_block_line_break_free(data);
    let group = if g.with_span_context {
        spec_span_group(spans, g.with_span_names)
    } else {
        Seq::<char>::empty()
    };
    if g.with_span_context {
        lemma_span_group_line_break_free(spans, g.with_span_names);
    }
    assert(line_break_free(group));
    lemma_fields_text_line_break_free(e.fields@, cfg);
    let a = lvl + spec_timestamp(now);
    let b = a + seq![' '];
    let c = b + spec_process_block(data);
    let d = c + seq![']', ' '];
    let f = d + group;
    let prefix = f + spec_fields_text(e.fields@, cfg);
    lemma_line_break_free_concat(lvl, spec_timestamp(now));
    lemma_line_break_free_concat(a, seq![' ']);
    lemma_line_break_free_concat(b, spec_process_block(data));
    lemma_line_break_free_concat(c, seq![']', ' ']);
    lemma_line_break_free_concat(d, group);
    lemma_line_break_free_concat(f, spec_fields_text(e.fields@, cfg));
    let line = spec_line(g, cfg, e, spans, now, pid, thread_name);
    assert(line == prefix + seq!['\n']);
    assert(line.last() == '\n');
    assert forall|k: int| 0 <= k < line.len() - 1 implies line[k] != '\n' by {
        assert(line[k] == prefix[k]);
    }
}

/// Law: the span-context group is entirely absent — not even an empty
/// pair of brackets — when the group is disabled, and also when it is
/// enabled but every span contributes nothing (names suppressed and all
/// field strings empty): the line equals the one rendered with no spans
/// at all.
pub proof fn lemma_span_group_absent(
    g: Glog,
    cfg: FieldConfig,
    e: Event,
    spans: Seq<SpanEntry>,
    now: ClockParts,
    pid: u32,
    thread_name: Option<String>,
)
    requires
        !g.with_span_context || forall|k: int|
            0 <= k < spans.len() ==> !spec_contributes(#[trigger] spans[k], g.with_span_names),
    ensures
        spec_line(g, cfg, e, spans, now, pid, thread_name) == spec_line(
            g,
            cfg,
            e,
            Seq::<SpanEntry>::empty(),
            now,
            pid,
            thread_name,
        ),
{
    if g.with_span_context {
        lemma_group_absent_without_contribution(spans, g.with_span_names);
        lemma_group_absent_without_contribution(Seq::<SpanEntry>::empty(), g.with_span_names);
    }
}

/// Law: rendering is a pure function of its inputs — the same
/// configuration, event, span chain, instant and process metadata yield
/// byte-identical output, however often the line is rendered.
pub proof fn lemma_render_deterministic(
    g1: Glog,
    cfg1: FieldConfig,
    e1: Event,
    spans1: Seq<SpanEntry>,
    now1: ClockParts,
    pid1: u32,
    thread_name1: Option<String>,
    g2: Glog,
    cfg2: FieldConfig,
    e2: Event,
    spans2: Seq<SpanEntry>,
    now2: ClockParts,
    pid2: u32,
    thread_name2: Option<String>,
)
    requires
        g1 == g2,
        cfg1 == cfg2,
        e1 == e2,
        spans1 == spans2,
        now1 == now2,
        pid1 == pid2,
        thread_name1 == thread_name2,
    ensures
        spec_line(g1, cfg1, e1, spans1, now1, pid1, thread_name1) == spec_line(
            g2,
            cfg2,
            e2,
            spans2,
            now2,
            pid2,
            thread_name2,
        ),
{
}

} // verus!
