//! The field visitor: serializes the named, typed values of an event or
//! span into one comma-joined tail. The synthetic `message` field renders
//! first and unlabeled, internal metadata fields are dropped, raw-escaped
//! labels lose their escape marker, strings follow the quoting toggle and
//! errors carry their whole causal chain.

use vstd::prelude::*;
use vstd::string::StrSliceExecFns;
use vstd::string::StringExecFns;
use crate::text::{
    comma_space, line_break_free, spec_joined, spec_quoted, spec_starts_with, join_comma,
    lemma_joined_cons, lemma_joined_line_break_free, lemma_joined_push,
    lemma_line_break_free_concat, lemma_quoted_line_break_free, lemma_skip_line_break_free,
    quote_string, str_eq_chars, str_starts_with,
};

verus! {

/// One recorded value.
pub enum FieldValue {
    /// A string value, subject to the quoting toggle.
    Str(String),
    /// Any other value, already rendered to its debug text by the host.
    Debugged(String),
    /// An error: its display text, and the display texts of its causes
    /// from the outermost cause down to the root.
    Error { message: String, sources: Vec<String> },
}

/// A named value, as declared at the call site.
pub struct Field {
    pub name: String,
    pub value: FieldValue,
}

/// The field-rendering toggles.
#[derive(Clone, Copy, PartialEq, Eq, Structural)]
pub struct FieldConfig {
    pub should_quote_strings: bool,
    pub use_whitespace_in_field: bool,
}

impl Default for FieldConfig {
    /// Strings quoted, a space after each label.
    fn default() -> (r: FieldConfig)
        ensures
            r.should_quote_strings,
            r.use_whitespace_in_field,
    {
        FieldConfig { should_quote_strings: true, use_whitespace_in_field: true }
    }
}

/// The name of the synthetic unlabeled leading field.
pub open spec fn message_name() -> Seq<char> {
    seq!['m', 'e', 's', 's', 'a', 'g', 'e']
}

/// The marker prefix of internal metadata fields, which are dropped.
pub open spec fn meta_prefix() -> Seq<char> {
    seq!['l', 'o', 'g', '.']
}

/// The reserved-word escape marker, stripped from labels.
pub open spec fn raw_prefix() -> Seq<char> {
    seq!['r', '#']
}

/// The label a field name renders under: the name, with a leading
/// reserved-word escape marker stripped.
pub open spec fn spec_label(name: Seq<char>) -> Seq<char> {
    if spec_starts_with(name, raw_prefix()) {
        name.skip(2)
    } else {
        name
    }
}

/// The text `, <label>.sources: [` that introduces an error's causes.
pub open spec fn sources_intro(label: Seq<char>) -> Seq<char> {
    comma_space() + label + seq!['.', 's', 'o', 'u', 'r', 'c', 'e', 's', ':', ' ', '[']
}

/// How an error value renders: its display text alone when it has no
/// causes, else the display text followed by the bracketed cause list.
pub open spec fn spec_error_text(label: Seq<char>, message: Seq<char>, sources: Seq<Seq<char>>) -> Seq<char> {
    if sources.len() == 0 {
        message
    } else {
        message + sources_intro(label) + spec_joined(sources, comma_space()) + seq![']']
    }
}

/// How a value renders in a labeled position.
pub open spec fn spec_value_text(label: Seq<char>, v: FieldValue, quote: bool) -> Seq<char> {
    match v {
        FieldValue::Str(s) => if quote {
            spec_quoted(s@)
        } else {
            s@
        },
        FieldValue::Debugged(s) => s@,
        FieldValue::Error { message, sources } => spec_error_text(
            label,
            message@,
            sources.deep_view(),
        ),
    }
}

/// How the message field's value renders: unlabeled and never quoted.
pub open spec fn spec_message_text(v: FieldValue) -> Seq<char> {
    spec_value_text(message_name(), v, false)
}

/// The token one recorded name/text pair produces: the bare text for the
/// message name, nothing for a metadata name, and otherwise
/// `label:` (plus a space under the whitespace toggle) and the text.
pub open spec fn spec_debug_token(name: Seq<char>, value: Seq<char>, ws: bool) -> Option<
    Seq<char>,
> {
    if name == message_name() {
        Some(value)
    } else if spec_starts_with(name, meta_prefix()) {
        None
    } else {
        Some(
            spec_label(name) + seq![':'] + (if ws {
                seq![' ']
            } else {
                Seq::<char>::empty()
            }) + value,
        )
    }
}

/// The token a recorded string produces: quoted only when the toggle is
/// on and the field is not the message.
pub open spec fn spec_str_token(name: Seq<char>, value: Seq<char>, cfg: FieldConfig) -> Option<
    Seq<char>,
> {
    spec_debug_token(
        name,
        if name == message_name() {
            value
        } else if cfg.should_quote_strings {
            spec_quoted(value)
        } else {
            value
        },
        cfg.use_whitespace_in_field,
    )
}

/// The unlabeled tokens of the message fields, in declaration order.
pub open spec fn spec_message_tokens(fields: Seq<Field>) -> Seq<Seq<char>>
    decreases fields.len(),
{
    if fields.len() == 0 {
        Seq::empty()
    } else {
        let front = spec_message_tokens(fields.drop_last());
        if fields.last().name@ == message_name() {
            front.push(spec_message_text(fields.last().value))
        } else {
            front
        }
    }
}

/// The labeled tokens of the remaining visible fields, in declaration
/// order: message fields are hoisted out and metadata fields dropped.
pub open spec fn spec_other_tokens(fields: Seq<Field>, cfg: FieldConfig) -> Seq<Seq<char>>
    decreases fields.len(),
{
    if fields.len() == 0 {
        Seq::empty()
    } else {
        let front = spec_other_tokens(fields.drop_last(), cfg);
        let f = fields.last();
        if f.name@ == message_name() {
            front
        } else {
            match spec_debug_token(
                f.name@,
                spec_value_text(spec_label(f.name@), f.value, cfg.should_quote_strings),
                cfg.use_whitespace_in_field,
            ) {
                Some(t) => front.push(t),
                None => front,
            }
        }
    }
}

/// The whole field tail: message tokens first, then the labeled tokens,
/// all joined by `", "`.
pub open spec fn spec_fields_text(fields: Seq<Field>, cfg: FieldConfig) -> Seq<char> {
    spec_joined(spec_message_tokens(fields) + spec_other_tokens(fields, cfg), comma_space())
}

/// How one visitor step changes the accumulator: nothing for a dropped
/// token, else the token with a `", "` in front when something came
/// before.
pub open spec fn spec_wrote(v0: GlogVisitor, v1: GlogVisitor, tok: Option<Seq<char>>) -> bool {
    &&& v1.config == v0.config
    &&& match tok {
        None => v1 == v0,
        Some(t) => {
            &&& v1.out@ == v0.out@ + (if v0.is_empty {
                Seq::<char>::empty()
            } else {
                comma_space()
            }) + t
            &&& v1.is_empty == false
        },
    }
}

/// The accumulating field visitor: one field is recorded at a time, in
/// declaration order, into one comma-joined tail.
pub struct GlogVisitor {
    pub out: String,
    pub is_empty: bool,
    pub config: FieldConfig,
}

impl GlogVisitor {
    /// A fresh visitor with an empty accumulator.
    pub fn new(config: FieldConfig) -> (r: GlogVisitor)
        ensures
            r.out@ == Seq::<char>::empty(),
            r.is_empty,
            r.config == config,
    {
        GlogVisitor { out: String::new(), is_empty: true, config }
    }

    /// Writes `text`, preceded by `", "` when a token came before.
    fn write_padded(&mut self, text: &str)
        ensures
            final(self).config == old(self).config,
            !final(self).is_empty,
            final(self).out@ == old(self).out@ + (if old(self).is_empty {
                Seq::<char>::empty()
            } else {
                comma_space()
            }) + text@,
    {
        proof {
            reveal_strlit(", ");
            assert(", "@ =~= comma_space());
        }
        if self.is_empty {
            self.is_empty = false;
        } else {
            self.out.append(", ");
        }
        self.out.append(text);
        proof {
            assert(self.out@ =~= old(self).out@ + (if old(self).is_empty {
                Seq::<char>::empty()
            } else {
                comma_space()
            }) + text@);
        }
    }

    /// Writes one labeled token: `label:` (plus a space under the
    /// whitespace toggle) and the already-rendered value text.
    fn write_field(&mut self, label: &str, value: &str)
        ensures
            spec_wrote(
                *old(self),
                *final(self),
                Some(
                    label@ + seq![':'] + (if old(self).config.use_whitespace_in_field {
                        seq![' ']
                    } else {
                        Seq::<char>::empty()
                    }) + value@,
                ),
            ),
    {
        proof {
            reveal_strlit(": ");
            reveal_strlit(":");
        }
        let mut token = String::from_str(label);
        if self.config.use_whitespace_in_field {
            token.append(": ");
        } else {
            token.append(":");
        }
        token.append(value);
        proof {
            assert(token@ =~= label@ + seq![':'] + (if self.config.use_whitespace_in_field {
                seq![' ']
            } else {
                Seq::<char>::empty()
            }) + value@);
        }
        self.write_padded(token.as_str());
    }

    /// Records a field whose value text is already rendered: the message
    /// field unlabeled, metadata fields dropped, raw-escaped labels
    /// stripped, all else labeled.
    pub fn record_debug(&mut self, name: &str, value: &str)
        ensures
            spec_wrote(
                *old(self),
                *final(self),
                spec_debug_token(name@, value@, old(self).config.use_whitespace_in_field),
            ),
    {
        proof {
            reveal_strlit("message");
            reveal_strlit("log.");
            reveal_strlit("r#");
            assert("message"@ =~= message_name());
            assert("log."@ =~= meta_prefix());
            assert("r#"@ =~= raw_prefix());
        }
        if str_eq_chars(name, "message") {
            self.write_padded(value);
        } else if str_starts_with(name, "log.") {
            // an internal metadata field: no output, no separator consumed
        } else if str_starts_with(name, "r#") {
            let n = name.unicode_len();
            let label = name.substring_char(2, n);
            proof {
                assert(label@ =~= spec_label(name@));
            }
            self.write_field(label, value);
        } else {
            self.write_field(name, value);
        }
    }

    /// Records a string field: quoted (with escapes) only when the
    /// quoting toggle is on and the field is not the message.
    pub fn record_str(&mut self, name: &str, value: &str)
        ensures
            spec_wrote(
                *old(self),
                *final(self),
                spec_str_token(name@, value@, old(self).config),
            ),
    {
        proof {
            reveal_strlit("message");
            assert("message"@ =~= message_name());
        }
        if !str_eq_chars(name, "message") && self.config.should_quote_strings {
            let quoted = quote_string(value);
            self.record_debug(name, quoted.as_str());
        } else {
            self.record_debug(name, value);
        }
    }

    /// Records an error field: its display text, followed, when it has
    /// causes, by `, <label>.sources: [..]` listing every cause.
    pub fn record_error(&mut self, name: &str, message: &str, sources: &Vec<String>)
        ensures
            spec_wrote(
                *old(self),
                *final(self),
                spec_debug_token(
                    name@,
                    spec_error_text(spec_label(name@), message@, sources.deep_view()),
                    old(self).config.use_whitespace_in_field,
                ),
            ),
    {
        if sources.len() == 0 {
            self.record_debug(name, message);
        } else {
            proof {
                reveal_strlit("r#");
                reveal_strlit(", ");
                reveal_strlit(".sources: [");
                reveal_strlit("]");
                assert("r#"@ =~= raw_prefix());
                assert(", "@ =~= comma_space());
            }
            let mut text = String::from_str(message);
            text.append(", ");
            if str_starts_with(name, "r#") {
                let n = name.unicode_len();
                let label = name.substring_char(2, n);
                proof {
                    assert(label@ =~= spec_label(name@));
                }
                text.append(label);
            } else {
                text.append(name);
            }
            text.append(".sources: [");
            let joined = join_comma(sources);
            text.append(joined.as_str());
            text.append("]");
            proof {
                assert(text@ =~= spec_error_text(
                    spec_label(name@),
                    message@,
                    sources.deep_view(),
                ));
            }
            self.record_debug(name, text.as_str());
        }
    }

    /// Finalizes the visitor and hands back the accumulated tail.
    pub fn finish(self) -> (r: String)
        ensures
            r@ == self.out@,
    {
        self.out
    }
}

/// The `message` name carries no escape marker and no metadata marker.
proof fn lemma_message_name_plain()
    ensures
        spec_label(message_name()) == message_name(),
        !spec_starts_with(message_name(), meta_prefix()),
{
    assert(!spec_starts_with(message_name(), raw_prefix())) by {
        assert(message_name().take(2)[0] == 'm');
        assert(raw_prefix()[0] == 'r');
    }
    assert(!spec_starts_with(message_name(), meta_prefix())) by {
        assert(message_name().take(4)[0] == 'm');
        assert(meta_prefix()[0] == 'l');
    }
}

/// The field-formatter configuration, with its builders.
pub struct GlogFields {
    pub config: FieldConfig,
}

impl Default for GlogFields {
    /// Strings quoted, a space after each label.
    fn default() -> (r: GlogFields)
        ensures
            r.config.should_quote_strings,
            r.config.use_whitespace_in_field,
    {
        GlogFields { config: FieldConfig::default() }
    }
}

impl GlogFields {
    /// Sets whether string values are wrapped in quotes.
    pub fn should_quote_strings(self, value: bool) -> (r: Self)
        ensures
            r.config.should_quote_strings == value,
            r.config.use_whitespace_in_field == self.config.use_whitespace_in_field,
    {
        GlogFields {
            config: FieldConfig {
                should_quote_strings: value,
                use_whitespace_in_field: self.config.use_whitespace_in_field,
            },
        }
    }

    /// Sets whether a space follows each field label.
    pub fn use_whitespace_in_field(self, value: bool) -> (r: Self)
        ensures
            r.config.use_whitespace_in_field == value,
            r.config.should_quote_strings == self.config.should_quote_strings,
    {
        GlogFields {
            config: FieldConfig {
                should_quote_strings: self.config.should_quote_strings,
                use_whitespace_in_field: value,
            },
        }
    }

    /// The compact options: no quotes and no whitespace.
    pub fn compact(self) -> (r: Self)
        ensures
            !r.config.should_quote_strings,
            !r.config.use_whitespace_in_field,
    {
        self.should_quote_strings(false).use_whitespace_in_field(false)
    }

    /// A fresh visitor carrying this configuration.
    pub fn make_visitor(&self) -> (r: GlogVisitor)
        ensures
            r.out@ == Seq::<char>::empty(),
            r.is_empty,
            r.config == self.config,
    {
        GlogVisitor::new(self.config)
    }

    /// Renders a whole field list: the message fields first, unlabeled,
    /// then every other visible field in declaration order, `", "` in
    /// between.
    pub fn format_fields(&self, fields: &Vec<Field>) -> (r: String)
        ensures
            r@ == spec_fields_text(fields@, self.config),
    {
        let mut v = GlogVisitor::new(self.config);
        let n = fields.len();
        let mut i: usize = 0;
        while i < n
            invariant
                i <= n,
                n == fields@.len(),
                v.config == self.config,
                v.out@ == spec_joined(spec_message_tokens(fields@.take(i as int)), comma_space()),
                v.is_empty == (spec_message_tokens(fields@.take(i as int)).len() == 0),
            decreases n - i,
        {
            let f = &fields[i];
            proof {
                reveal_strlit("message");
                assert("message"@ =~= message_name());
                assert(fields@.take(i as int + 1).drop_last() =~= fields@.take(i as int));
                assert(fields@.take(i as int + 1).last() == fields@[i as int]);
            }
            if str_eq_chars(f.name.as_str(), "message") {
                let ghost old_tokens = spec_message_tokens(fields@.take(i as int));
                proof {
                    lemma_message_name_plain();
                }
                match &f.value {
                    FieldValue::Str(s) => v.record_str(f.name.as_str(), s.as_str()),
                    FieldValue::Debugged(s) => v.record_debug(f.name.as_str(), s.as_str()),
                    FieldValue::Error { message, sources } => v.record_error(
                        f.name.as_str(),
                        message.as_str(),
                        sources,
                    ),
                }
                proof {
                    lemma_joined_push(old_tokens, spec_message_text(fields@[i as int].value), comma_space());
                    assert(spec_message_tokens(fields@.take(i as int + 1)) =~= old_tokens.push(
                        spec_message_text(fields@[i as int].value),
                    ));
                    assert(v.out@ =~= spec_joined(
                        spec_message_tokens(fields@.take(i as int + 1)),
                        comma_space(),
                    ));
                }
            } else {
                proof {
                    assert(spec_message_tokens(fields@.take(i as int + 1)) =~= spec_message_tokens(
                        fields@.take(i as int),
                    ));
                }
            }
            i = i + 1;
        }
        proof {
            assert(fields@.take(n as int) =~= fields@);
        }
        let ghost msg_tokens = spec_message_tokens(fields@);
        proof {
            assert(msg_tokens + spec_other_tokens(fields@.take(0), self.config) =~= msg_tokens);
        }
        let mut j: usize = 0;
        while j < n
            invariant
                j <= n,
                n == fields@.len(),
                v.config == self.config,
                msg_tokens == spec_message_tokens(fields@),
                v.out@ == spec_joined(
                    msg_tokens + spec_other_tokens(fields@.take(j as int), self.config),
                    comma_space(),
                ),
                v.is_empty == ((msg_tokens + spec_other_tokens(
                    fields@.take(j as int),
                    self.config,
                )).len() == 0),
            decreases n - j,
        {
            let f = &fields[j];
            proof {
                reveal_strlit("message");
                assert("message"@ =~= message_name());
                assert(fields@.take(j as int + 1).drop_last() =~= fields@.take(j as int));
                assert(fields@.take(j as int + 1).last() == fields@[j as int]);
            }
            let ghost old_tokens = msg_tokens + spec_other_tokens(fields@.take(j as int), self.config);
            if !str_eq_chars(f.name.as_str(), "message") {
                match &f.value {
                    FieldValue::Str(s) => v.record_str(f.name.as_str(), s.as_str()),
                    FieldValue::Debugged(s) => v.record_debug(f.name.as_str(), s.as_str()),
                    FieldValue::Error { message, sources } => v.record_error(
                        f.name.as_str(),
                        message.as_str(),
                        sources,
                    ),
                }
                proof {
                    let fld = fields@[j as int];
                    let tok = spec_debug_token(
                        fld.name@,
                        spec_value_text(spec_label(fld.name@), fld.value, self.config.should_quote_strings),
                        self.config.use_whitespace_in_field,
                    );
                    match tok {
                        Some(t) => {
                            lemma_joined_push(old_tokens, t, comma_space());
                            assert(spec_other_tokens(fields@.take(j as int + 1), self.config)
                                =~= spec_other_tokens(fields@.take(j as int), self.config).push(t));
                            assert(msg_tokens + spec_other_tokens(fields@.take(j as int + 1), self.config)
                                =~= old_tokens.push(t));
                            assert(v.out@ =~= spec_joined(
                                msg_tokens + spec_other_tokens(fields@.take(j as int + 1), self.config),
                                comma_space(),
                            ));
                        },
                        None => {
                            assert(spec_other_tokens(fields@.take(j as int + 1), self.config)
                                =~= spec_other_tokens(fields@.take(j as int), self.config));
                        },
                    }
                }
            } else {
                proof {
                    assert(spec_other_tokens(fields@.take(j as int + 1), self.config)
                        =~= spec_other_tokens(fields@.take(j as int), self.config));
                }
            }
            j = j + 1;
        }
        proof {
            assert(fields@.take(n as int) =~= fields@);
        }
        v.finish()
    }
}

/// Whether a value's texts hold no line terminator.
pub open spec fn value_line_break_free(v: FieldValue) -> bool {
    match v {
        FieldValue::Str(s) => line_break_free(s@),
        FieldValue::Debugged(s) => line_break_free(s@),
        FieldValue::Error { message, sources } => line_break_free(message@) && forall|i: int|
            0 <= i < sources.deep_view().len() ==> line_break_free(#[trigger] sources.deep_view()[i]),
    }
}

/// Whether a field's name and value hold no line terminator.
pub open spec fn field_line_break_free(f: Field) -> bool {
    line_break_free(f.name@) && value_line_break_free(f.value)
}

/// A label of a terminator-free name is terminator-free.
proof fn lemma_label_line_break_free(name: Seq<char>)
    requires
        line_break_free(name),
    ensures
        line_break_free(spec_label(name)),
{
    if spec_starts_with(name, raw_prefix()) {
        lemma_skip_line_break_free(name, 2);
    }
}

/// A rendered error text is terminator-free when its parts are.
proof fn lemma_error_text_line_break_free(label: Seq<char>, message: Seq<char>, sources: Seq<Seq<char>>)
    requires
        line_break_free(label),
        line_break_free(message),
        forall|i: int| 0 <= i < sources.len() ==> line_break_free(#[trigger] sources[i]),
    ensures
        line_break_free(spec_error_text(label, message, sources)),
{
    if sources.len() > 0 {
        assert(line_break_free(comma_space()));
        lemma_line_break_free_concat(comma_space(), label);
        let tail = seq!['.', 's', 'o', 'u', 'r', 'c', 'e', 's', ':', ' ', '['];
        assert(line_break_free(tail));
        lemma_line_break_free_concat(comma_space() + label, tail);
        lemma_line_break_free_concat(message, sources_intro(label));
        lemma_joined_line_break_free(sources, comma_space());
        lemma_line_break_free_concat(message + sources_intro(label), spec_joined(sources, comma_space()));
        lemma_line_break_free_concat(
            message + sources_intro(label) + spec_joined(sources, comma_space()),
            seq![']'],
        );
    }
}

/// A rendered value text is terminator-free when label and value are.
proof fn lemma_value_text_line_break_free(label: Seq<char>, v: FieldValue, quote: bool)
    requires
        line_break_free(label),
        value_line_break_free(v),
    ensures
        line_break_free(spec_value_text(label, v, quote)),
{
    match v {
        FieldValue::Str(s) => {
            if quote {
                lemma_quoted_line_break_free(s@);
            }
        },
        FieldValue::Debugged(s) => {
        },
        FieldValue::Error { message, sources } => {
            lemma_error_text_line_break_free(label, message@, sources.deep_view());
        },
    }
}

/// A token a record step emits is terminator-free when name and value
/// text are.
proof fn lemma_debug_token_line_break_free(name: Seq<char>, value: Seq<char>, ws: bool)
    requires
        line_break_free(name),
        line_break_free(value),
    ensures
        spec_debug_token(name, value, ws) matches Some(t) ==> line_break_free(t),
{
    if name != message_name() && !spec_starts_with(name, meta_prefix()) {
        lemma_label_line_break_free(name);
        lemma_line_break_free_concat(spec_label(name), seq![':']);
        let ws_part = if ws {
            seq![' ']
        } else {
            Seq::<char>::empty()
        };
        lemma_line_break_free_concat(spec_label(name) + seq![':'], ws_part);
        lemma_line_break_free_concat(spec_label(name) + seq![':'] + ws_part, value);
    }
}

/// Every message token of a terminator-free field list is
/// terminator-free.
proof fn lemma_message_tokens_line_break_free(fields: Seq<Field>)
    requires
        forall|i: int| 0 <= i < fields.len() ==> field_line_break_free(#[trigger] fields[i]),
    ensures
        forall|i: int|
            0 <= i < spec_message_tokens(fields).len() ==> line_break_free(
                #[trigger] spec_message_tokens(fields)[i],
            ),
    decreases fields.len(),
{
    if fields.len() > 0 {
        assert forall|i: int|
            0 <= i < fields.drop_last().len() implies field_line_break_free(
            #[trigger] fields.drop_last()[i],
        ) by {
            assert(fields.drop_last()[i] == fields[i]);
        }
        lemma_message_tokens_line_break_free(fields.drop_last());
        let f = fields.last();
        let front = spec_message_tokens(fields.drop_last());
        if f.name@ == message_name() {
            assert(field_line_break_free(fields[fields.len() - 1]));
            assert(line_break_free(message_name()));
            lemma_value_text_line_break_free(message_name(), f.value, false);
            assert forall|i: int|
                0 <= i < spec_message_tokens(fields).len() implies line_break_free(
                #[trigger] spec_message_tokens(fields)[i],
            ) by {
                if i < front.len() {
                    assert(spec_message_tokens(fields)[i] == front[i]);
                } else {
                    assert(spec_message_tokens(fields)[i] == spec_message_text(f.value));
                }
            }
        } else {
            assert forall|i: int|
                0 <= i < spec_message_tokens(fields).len() implies line_break_free(
                #[trigger] spec_message_tokens(fields)[i],
            ) by {
                assert(spec_message_tokens(fields)[i] == front[i]);
            }
        }
    }
}

/// Every labeled token of a terminator-free field list is
/// terminator-free.
proof fn lemma_other_tokens_line_break_free(fields: Seq<Field>, cfg: FieldConfig)
    requires
        forall|i: int| 0 <= i < fields.len() ==> field_line_break_free(#[trigger] fields[i]),
    ensures
        forall|i: int|
            0 <= i < spec_other_tokens(fields, cfg).len() ==> line_break_free(
                #[trigger] spec_other_tokens(fields, cfg)[i],
            ),
    decreases fields.len(),
{
    if fields.len() > 0 {
        assert forall|i: int|
            0 <= i < fields.drop_last().len() implies field_line_break_free(
            #[trigger] fields.drop_last()[i],
        ) by {
            assert(fields.drop_last()[i] == fields[i]);
        }
        lemma_other_tokens_line_break_free(fields.drop_last(), cfg);
        let f = fields.last();
        let front = spec_other_tokens(fields.drop_last(), cfg);
        if f.name@ != message_name() {
            assert(field_line_break_free(fields[fields.len() - 1]));
            lemma_label_line_break_free(f.name@);
            lemma_value_text_line_break_free(
                spec_label(f.name@),
                f.value,
                cfg.should_quote_strings,
            );
            lemma_debug_token_line_break_free(
                f.name@,
                spec_value_text(spec_label(f.name@), f.value, cfg.should_quote_strings),
                cfg.use_whitespace_in_field,
            );
        }
        assert forall|i: int|
            0 <= i < spec_other_tokens(fields, cfg).len() implies line_break_free(
            #[trigger] spec_other_tokens(fields, cfg)[i],
        ) by {
            if i < front.len() {
                assert(spec_other_tokens(fields, cfg)[i] == front[i]);
            }
        }
    }
}

/// A rendered field tail holds no line terminator when no field's name
/// or text carries one.
pub proof fn lemma_fields_text_line_break_free(fields: Seq<Field>, cfg: FieldConfig)
    requires
        forall|i: int| 0 <= i < fields.len() ==> field_line_break_free(#[trigger] fields[i]),
    ensures
        line_break_free(spec_fields_text(fields, cfg)),
{
    lemma_message_tokens_line_break_free(fields);
    lemma_other_tokens_line_break_free(fields, cfg);
    let all = spec_message_tokens(fields) + spec_other_tokens(fields, cfg);
    assert forall|i: int| 0 <= i < all.len() implies line_break_free(#[trigger] all[i]) by {
        if i < spec_message_tokens(fields).len() {
            assert(all[i] == spec_message_tokens(fields)[i]);
        } else {
            assert(all[i] == spec_other_tokens(fields, cfg)[i - spec_message_tokens(
                fields,
            ).len()]);
        }
    }
    lemma_joined_line_break_free(all, comma_space());
}

/// A field list without message-named fields yields no message token.
proof fn lemma_message_tokens_empty(fields: Seq<Field>)
    requires
        forall|i: int| 0 <= i < fields.len() ==> (#[trigger] fields[i]).name@ != message_name(),
    ensures
        spec_message_tokens(fields) == Seq::<Seq<char>>::empty(),
    decreases fields.len(),
{
    if fields.len() > 0 {
        assert forall|i: int|
            0 <= i < fields.drop_last().len() implies (#[trigger] fields.drop_last()[i]).name@
            != message_name() by {
            assert(fields.drop_last()[i] == fields[i]);
        }
        lemma_message_tokens_empty(fields.drop_last());
        assert(fields[fields.len() - 1].name@ != message_name());
    }
}

/// A field list whose one message field stands at position `k` yields
/// exactly that field's unlabeled token.
proof fn lemma_message_tokens_single(fields: Seq<Field>, k: int)
    requires
        0 <= k < fields.len(),
        fields[k].name@ == message_name(),
        forall|i: int|
            0 <= i < fields.len() && i != k ==> (#[trigger] fields[i]).name@ != message_name(),
    ensures
        spec_message_tokens(fields) == seq![spec_message_text(fields[k].value)],
    decreases fields.len(),
{
    if k == fields.len() - 1 {
        assert forall|i: int|
            0 <= i < fields.drop_last().len() implies (#[trigger] fields.drop_last()[i]).name@
            != message_name() by {
            assert(fields.drop_last()[i] == fields[i]);
        }
        lemma_message_tokens_empty(fields.drop_last());
        assert(spec_message_tokens(fields) =~= seq![spec_message_text(fields[k].value)]);
    } else {
        assert forall|i: int|
            0 <= i < fields.drop_last().len() && i != k implies (#[trigger] fields.drop_last()[
            i]).name@ != message_name() by {
            assert(fields.drop_last()[i] == fields[i]);
        }
        assert(fields.drop_last()[k] == fields[k]);
        lemma_message_tokens_single(fields.drop_last(), k);
        assert(fields[fields.len() - 1].name@ != message_name());
    }
}

/// The labeled token of a plainly-named field.
pub open spec fn spec_labeled_token(f: Field, cfg: FieldConfig) -> Seq<char> {
    spec_label(f.name@) + seq![':'] + (if cfg.use_whitespace_in_field {
        seq![' ']
    } else {
        Seq::<char>::empty()
    }) + spec_value_text(spec_label(f.name@), f.value, cfg.should_quote_strings)
}

/// Field order is preserved: a list of plainly-named fields (none named
/// `message`, none carrying the metadata marker) renders as exactly one
/// labeled token per field, in declaration order, never reordered and
/// never deduplicated.
pub proof fn lemma_field_order_preserved(fields: Seq<Field>, cfg: FieldConfig)
    requires
        forall|i: int| 0 <= i < fields.len() ==> (#[trigger] fields[i]).name@ != message_name(),
        forall|i: int|
            0 <= i < fields.len() ==> !spec_starts_with(
                (#[trigger] fields[i]).name@,
                meta_prefix(),
            ),
    ensures
        spec_other_tokens(fields, cfg).len() == fields.len(),
        forall|i: int|
            0 <= i < fields.len() ==> spec_other_tokens(fields, cfg)[i] == spec_labeled_token(
                #[trigger] fields[i],
                cfg,
            ),
        spec_fields_text(fields, cfg) == spec_joined(spec_other_tokens(fields, cfg), comma_space()),
    decreases fields.len(),
{
    if fields.len() > 0 {
        assert forall|i: int|
            0 <= i < fields.drop_last().len() implies (#[trigger] fields.drop_last()[i]).name@
            != message_name() && !spec_starts_with(
            fields.drop_last()[i].name@,
            meta_prefix(),
        ) by {
            assert(fields.drop_last()[i] == fields[i]);
        }
        lemma_field_order_preserved(fields.drop_last(), cfg);
        assert(fields[fields.len() - 1].name@ != message_name());
        assert(!spec_starts_with(fields[fields.len() - 1].name@, meta_prefix()));
        assert(spec_other_tokens(fields, cfg) =~= spec_other_tokens(fields.drop_last(), cfg).push(
            spec_labeled_token(fields.last(), cfg),
        ));
        assert forall|i: int|
            0 <= i < fields.len() implies spec_other_tokens(fields, cfg)[i]
            == spec_labeled_token(#[trigger] fields[i], cfg) by {
            if i < fields.len() - 1 {
                assert(spec_other_tokens(fields, cfg)[i] == spec_other_tokens(
                    fields.drop_last(),
                    cfg,
                )[i]);
                assert(fields.drop_last()[i] == fields[i]);
            }
        }
    }
    lemma_message_tokens_empty(fields);
    assert(spec_message_tokens(fields) + spec_other_tokens(fields, cfg) =~= spec_other_tokens(
        fields,
        cfg,
    ));
}

/// The `message` field renders first and unlabeled, wherever it stands
/// among the declared fields: the tail starts with its bare value text,
/// and the remaining visible fields follow after `", "`.
pub proof fn lemma_message_renders_first(fields: Seq<Field>, cfg: FieldConfig, k: int)
    requires
        0 <= k < fields.len(),
        fields[k].name@ == message_name(),
        forall|i: int|
            0 <= i < fields.len() && i != k ==> (#[trigger] fields[i]).name@ != message_name(),
    ensures
        spec_fields_text(fields, cfg) == (if spec_other_tokens(fields, cfg).len() == 0 {
            spec_message_text(fields[k].value)
        } else {
            spec_message_text(fields[k].value) + comma_space() + spec_joined(
                spec_other_tokens(fields, cfg),
                comma_space(),
            )
        }),
{
    lemma_message_tokens_single(fields, k);
    let m = spec_message_text(fields[k].value);
    let others = spec_other_tokens(fields, cfg);
    let all = spec_message_tokens(fields) + others;
    assert(all.len() == 1 + others.len());
    assert(all[0] == m);
    lemma_joined_cons(all, comma_space());
    if others.len() == 0 {
        assert(spec_joined(all, comma_space()) == all[0]);
    } else {
        assert(all.drop_first() =~= others);
    }
}

} // verus!
