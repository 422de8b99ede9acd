//! The span-context renderer: walks the active span chain root to leaf
//! and joins the contributing spans inside one bracketed group. The
//! opening bracket is emitted only once some span is known to
//! contribute, so an empty group produces no output at all.

use vstd::prelude::*;
use vstd::string::StringExecFns;
use crate::text::{comma_space, line_break_free, lemma_line_break_free_concat};

verus! {

/// One active span: its name and its previously-serialized field string
/// (empty when it recorded no fields).
pub struct SpanEntry {
    pub name: String,
    pub fields: String,
}

/// Whether a span shows up in the group: always when span names are
/// printed, else only when it recorded fields.
pub open spec fn spec_contributes(s: SpanEntry, print_span_names: bool) -> bool {
    print_span_names || s.fields@.len() > 0
}

/// What one contributing span renders as: its name, with the field
/// string braced behind it when there is one; with names suppressed,
/// just the bare field string.
pub open spec fn spec_span_token(s: SpanEntry, print_span_names: bool) -> Seq<char> {
    if print_span_names {
        s.name@ + (if s.fields@.len() > 0 {
            seq!['{'] + s.fields@ + seq!['}']
        } else {
            Seq::<char>::empty()
        })
    } else {
        s.fields@
    }
}

/// Whether any span of the chain contributes.
pub open spec fn spec_any_contributes(spans: Seq<SpanEntry>, print_span_names: bool) -> bool
    decreases spans.len(),
{
    if spans.len() == 0 {
        false
    } else {
        spec_any_contributes(spans.drop_last(), print_span_names) || spec_contributes(
            spans.last(),
            print_span_names,
        )
    }
}

/// The group's inside: the contributing spans' tokens, root first,
/// joined by `", "`, with no separator for skipped spans.
pub open spec fn spec_span_body(spans: Seq<SpanEntry>, print_span_names: bool) -> Seq<char>
    decreases spans.len(),
{
    if spans.len() == 0 {
        Seq::empty()
    } else {
        let front = spec_span_body(spans.drop_last(), print_span_names);
        if spec_contributes(spans.last(), print_span_names) {
            if spec_any_contributes(spans.drop_last(), print_span_names) {
                front + comma_space() + spec_span_token(spans.last(), print_span_names)
            } else {
                spec_span_token(spans.last(), print_span_names)
            }
        } else {
            front
        }
    }
}

/// The whole group: `[` body `] ` when some span contributes, and
/// nothing at all otherwise.
pub open spec fn spec_span_group(spans: Seq<SpanEntry>, print_span_names: bool) -> Seq<char> {
    if spec_any_contributes(spans, print_span_names) {
        seq!['['] + spec_span_body(spans, print_span_names) + seq![']', ' ']
    } else {
        Seq::<char>::empty()
    }
}

/// A chain with no contributing span has an empty body.
proof fn lemma_body_empty(spans: Seq<SpanEntry>, print_span_names: bool)
    requires
        !spec_any_contributes(spans, print_span_names),
    ensures
        spec_span_body(spans, print_span_names) == Seq::<char>::empty(),
    decreases spans.len(),
{
    if spans.len() > 0 {
        lemma_body_empty(spans.drop_last(), print_span_names);
    }
}

/// Some span contributes exactly when some position of the chain holds
/// a contributing span.
pub proof fn lemma_any_contributes_iff(spans: Seq<SpanEntry>, print_span_names: bool)
    ensures
        spec_any_contributes(spans, print_span_names) <==> (exists|k: int|
            0 <= k < spans.len() && spec_contributes(spans[k], print_span_names)),
    decreases spans.len(),
{
    if spans.len() > 0 {
        lemma_any_contributes_iff(spans.drop_last(), print_span_names);
        if spec_any_contributes(spans, print_span_names) {
            if spec_contributes(spans.last(), print_span_names) {
                assert(spec_contributes(spans[spans.len() - 1], print_span_names));
            } else {
                let k = choose|k: int|
                    0 <= k < spans.len() - 1 && spec_contributes(
                        spans.drop_last()[k],
                        print_span_names,
                    );
                assert(spec_contributes(spans[k], print_span_names));
            }
        } else {
            assert forall|k: int|
                0 <= k < spans.len() implies !spec_contributes(spans[k], print_span_names) by {
                if k < spans.len() - 1 {
                    assert(spans.drop_last()[k] == spans[k]);
                }
            }
        }
    }
}

/// The span-context group is entirely absent when no span contributes:
/// with names suppressed and every span's field string empty, nothing is
/// rendered, not even an empty pair of brackets.
pub proof fn lemma_group_absent_without_contribution(spans: Seq<SpanEntry>, print_span_names: bool)
    requires
        forall|k: int| 0 <= k < spans.len() ==> !spec_contributes(spans[k], print_span_names),
    ensures
        spec_span_group(spans, print_span_names) == Seq::<char>::empty(),
{
    lemma_any_contributes_iff(spans, print_span_names);
}

/// Whether a span's name and field string hold no line terminator.
pub open spec fn span_line_break_free(s: SpanEntry) -> bool {
    line_break_free(s.name@) && line_break_free(s.fields@)
}

/// A contributing span's token is terminator-free when the span is.
proof fn lemma_span_token_line_break_free(s: SpanEntry, print_span_names: bool)
    requires
        span_line_break_free(s),
    ensures
        line_break_free(spec_span_token(s, print_span_names)),
{
    if print_span_names && s.fields@.len() > 0 {
        lemma_line_break_free_concat(seq!['{'], s.fields@);
        lemma_line_break_free_concat(seq!['{'] + s.fields@, seq!['}']);
        lemma_line_break_free_concat(s.name@, seq!['{'] + s.fields@ + seq!['}']);
    }
    if print_span_names && s.fields@.len() == 0 {
        lemma_line_break_free_concat(s.name@, Seq::<char>::empty());
    }
}

/// The group's body is terminator-free when every span is.
proof fn lemma_span_body_line_break_free(spans: Seq<SpanEntry>, print_span_names: bool)
    requires
        forall|i: int| 0 <= i < spans.len() ==> span_line_break_free(#[trigger] spans[i]),
    ensures
        line_break_free(spec_span_body(spans, print_span_names)),
    decreases spans.len(),
{
    if spans.len() > 0 {
        assert forall|i: int|
            0 <= i < spans.drop_last().len() implies span_line_break_free(
            #[trigger] spans.drop_last()[i],
        ) by {
            assert(spans.drop_last()[i] == spans[i]);
        }
        lemma_span_body_line_break_free(spans.drop_last(), print_span_names);
        if spec_contributes(spans.last(), print_span_names) {
            assert(span_line_break_free(spans[spans.len() - 1]));
            lemma_span_token_line_break_free(spans.last(), print_span_names);
            if spec_any_contributes(spans.drop_last(), print_span_names) {
                lemma_line_break_free_concat(
                    spec_span_body(spans.drop_last(), print_span_names),
                    comma_space(),
                );
                lemma_line_break_free_concat(
                    spec_span_body(spans.drop_last(), print_span_names) + comma_space(),
                    spec_span_token(spans.last(), print_span_names),
                );
            }
        }
    }
}

/// The whole group is terminator-free when every span is.
pub proof fn lemma_span_group_line_break_free(spans: Seq<SpanEntry>, print_span_names: bool)
    requires
        forall|i: int| 0 <= i < spans.len() ==> span_line_break_free(#[trigger] spans[i]),
    ensures
        line_break_free(spec_span_group(spans, print_span_names)),
{
    if spec_any_contributes(spans, print_span_names) {
        lemma_span_body_line_break_free(spans, print_span_names);
        lemma_line_break_free_concat(seq!['['], spec_span_body(spans, print_span_names));
        lemma_line_break_free_concat(
            seq!['['] + spec_span_body(spans, print_span_names),
            seq![']', ' '],
        );
    }
}

/// One span's slot in the group, as handed to the renderer: the name,
/// the field string when there is one, and the name toggle.
pub struct FormatSpanFields {
    pub span_name: String,
    pub fields: Option<String>,
    pub print_span_names: bool,
}

/// What the slot renders as.
pub open spec fn spec_span_fields_text(x: FormatSpanFields) -> Seq<char> {
    match x.fields {
        Some(f) => if x.print_span_names {
            x.span_name@ + seq!['{'] + f@ + seq!['}']
        } else {
            f@
        },
        None => if x.print_span_names {
            x.span_name@
        } else {
            Seq::<char>::empty()
        },
    }
}

impl FormatSpanFields {
    /// Packs one span's data for rendering. The `ansi` toggle is
    /// accepted for symmetry; with styling disabled it changes nothing.
    pub fn format_fields(
        span_name: String,
        fields: Option<String>,
        ansi: bool,
        print_span_names: bool,
    ) -> (r: FormatSpanFields)
        ensures
            r == (FormatSpanFields { span_name, fields, print_span_names }),
    {
        let _unused: bool = ansi;
        FormatSpanFields { span_name, fields, print_span_names }
    }

    /// Renders the slot: name then braced fields, or the bare fields
    /// when names are suppressed.
    pub fn render(&self) -> (r: String)
        ensures
            r@ == spec_span_fields_text(*self),
    {
        proof {
            reveal_strlit("{");
            reveal_strlit("}");
        }
        match &self.fields {
            Some(f) => {
                if self.print_span_names {
                    let mut out = self.span_name.clone();
                    out.append("{");
                    out.append(f.as_str());
                    out.append("}");
                    proof {
                        assert(out@ =~= spec_span_fields_text(*self));
                    }
                    out
                } else {
                    f.clone()
                }
            },
            None => {
                if self.print_span_names {
                    self.span_name.clone()
                } else {
                    String::new()
                }
            },
        }
    }
}

/// Renders the whole span-context group, root first: `Some` of
/// `[tok, tok, ...] ` when some span contributes, `None` otherwise.
pub fn render_span_context(spans: &Vec<SpanEntry>, print_span_names: bool, ansi: bool) -> (r:
    Option<String>)
    ensures
        r matches Some(g) ==> spec_any_contributes(spans@, print_span_names) && g@
            == spec_span_group(spans@, print_span_names),
        r is None ==> !spec_any_contributes(spans@, print_span_names),
{
    let n = spans.len();
    let mut body = String::new();
    let mut wrote = false;
    let mut i: usize = 0;
    while i < n
        invariant
            i <= n,
            n == spans@.len(),
            body@ == spec_span_body(spans@.take(i as int), print_span_names),
            wrote == spec_any_contributes(spans@.take(i as int), print_span_names),
        decreases n - i,
    {
        proof {
            reveal_strlit(", ");
            assert(", "@ =~= comma_space());
            assert(spans@.take(i as int + 1).drop_last() =~= spans@.take(i as int));
            assert(spans@.take(i as int + 1).last() == spans@[i as int]);
        }
        let s = &spans[i];
        let has_fields = !s.fields.as_str().is_empty();
        if print_span_names || has_fields {
            if wrote {
                body.append(", ");
            } else {
                proof {
                    lemma_body_empty(spans@.take(i as int), print_span_names);
                }
            }
            let slot = FormatSpanFields::format_fields(
                s.name.clone(),
                if has_fields {
                    Some(s.fields.clone())
                } else {
                    None
                },
                ansi,
                print_span_names,
            );
            let tok = slot.render();
            body.append(tok.as_str());
            wrote = true;
            proof {
                assert(tok@ =~= spec_span_token(spans@[i as int], print_span_names));
                assert(body@ =~= spec_span_body(spans@.take(i as int + 1), print_span_names));
            }
        }
        i = i + 1;
    }
    proof {
        assert(spans@.take(n as int) =~= spans@);
    }
    if wrote {
        proof {
            reveal_strlit("[");
            reveal_strlit("] ");
        }
        let mut group = String::new();
        group.append("[");
        group.append(body.as_str());
        group.append("] ");
        proof {
            assert(group@ =~= spec_span_group(spans@, print_span_names));
        }
        Some(group)
    } else {
        None
    }
}

} // verus!
