//! Rendering of failure notifications.
use crate::headline::{is_headline, truncate_error};
use crate::text::{append, append_decimal, decimal, decimal_of};
use vstd::prelude::*;

verus! {

/// The text of a blank field: a zero-width space.
pub open spec fn blank_text() -> Seq<char> {
    seq!['\u{200B}']
}

/// A blank inline field, used to break a row of fields.
pub fn blank_field() -> (r: (&'static str, &'static str, bool))
    ensures
        r.0@ == blank_text(),
        r.1@ == blank_text(),
        r.2,
{
    proof {
        reveal_strlit("\u{200B}");
    }
    ("\u{200B}", "\u{200B}", true)
}

/// Text of the button that asks for the full diagnostic text.
pub const VIEW_PAYLOAD_LABEL: &'static str = "View Traceback";

/// The fixed discriminator of a request for the full diagnostic text.
pub const VIEW_PAYLOAD_ACTION: &'static str = "error::view_traceback";

/// One field of a notification.
pub struct EmbedField {
    pub name: String,
    pub value: String,
    pub inline: bool,
}

/// What a field shows.
pub ghost struct FieldView {
    pub name: Seq<char>,
    pub value: Seq<char>,
    pub inline: bool,
}

impl EmbedField {
    pub open spec fn field_view(&self) -> FieldView {
        FieldView { name: self.name@, value: self.value@, inline: self.inline }
    }
}

/// The author line of a notification.
pub struct Author {
    pub name: String,
    pub icon_url: Option<String>,
}

/// A rendered failure notification.
pub struct Notification {
    /// The headline of the failure.
    pub title: String,
    pub fields: Vec<EmbedField>,
    /// The occurrence counter.
    pub footer: String,
    pub author: Option<Author>,
    /// Label of the button that asks for the full diagnostic text.
    pub action_label: String,
    /// Discriminator that the button sends back.
    pub action_id: String,
}

/// What the caller and the machine contribute to a notification.
pub struct ReportContext {
    /// The kind of event in which the failure happened.
    pub event: String,
    /// The name of the reporting bot user.
    pub bot_user: String,
    /// Fields that describe the failure's context.
    pub extra_fields: Vec<EmbedField>,
    /// The load average over five minutes, already rendered.
    pub cpu_usage: String,
    /// Memory in use, in bytes.
    pub memory_used: u64,
    pub shard_count: u64,
    pub author_name: Option<String>,
    pub icon_url: Option<String>,
}

pub open spec fn views_of(fields: Seq<EmbedField>) -> Seq<FieldView> {
    fields.map_values(|f: EmbedField| f.field_view())
}

/// A field value as displayed: quoted as code, unless it is blank.
pub open spec fn decorate(v: Seq<char>) -> Seq<char> {
    if v == blank_text() {
        v
    } else {
        seq!['`'] + v + seq!['`']
    }
}

pub open spec fn decorated(f: FieldView) -> FieldView {
    FieldView { value: decorate(f.value), ..f }
}

/// The fields of the notification for `ctx`, before decoration.
pub open spec fn context_fields(ctx: ReportContext) -> Seq<FieldView> {
    seq![
        FieldView { name: "Event"@, value: ctx.event@, inline: true },
        FieldView { name: "Bot User"@, value: ctx.bot_user@, inline: true },
        FieldView { name: blank_text(), value: blank_text(), inline: true },
    ] + views_of(ctx.extra_fields@) + seq![
        FieldView { name: "CPU Usage (5 minutes)"@, value: ctx.cpu_usage@, inline: true },
        FieldView {
            name: "System Memory Usage"@,
            value: decimal_of((ctx.memory_used / 1024) as nat),
            inline: true,
        },
        FieldView { name: "Shard Count"@, value: decimal_of(ctx.shard_count as nat), inline: true },
    ]
}

/// The footer that shows `n` occurrences.
pub open spec fn footer_text(n: nat) -> Seq<char> {
    if n == 1 {
        "This error has occurred 1 time!"@
    } else {
        "This error has occurred "@ + decimal_of(n) + " times!"@
    }
}

/// The footer that shows `n` occurrences.
pub fn occurrence_footer(n: u64) -> (r: String)
    ensures
        r@ == footer_text(n as nat),
{
    if n == 1 {
        "This error has occurred 1 time!".to_owned()
    } else {
        let mut s = "This error has occurred ".to_owned();
        append_decimal(&mut s, n);
        append(&mut s, " times!");
        assert(s@ =~= footer_text(n as nat));
        s
    }
}

/// A field value as displayed.
pub fn field_value(value: &str) -> (r: String)
    ensures
        r@ == decorate(value@),
{
    proof {
        reveal_strlit("\u{200B}");
        reveal_strlit("`");
    }
    let v = value.to_owned();
    let blank = "\u{200B}".to_owned();
    assert(blank@ == blank_text());
    let same = v == blank;
    assert(same == (v@ == blank@));
    if same {
        v
    } else {
        let mut s = "`".to_owned();
        append(&mut s, value);
        append(&mut s, "`");
        assert(s@ =~= decorate(value@));
        s
    }
}

fn make_field(name: &str, value: &str, inline: bool) -> (r: EmbedField)
    ensures
        r.field_view() == decorated(FieldView { name: name@, value: value@, inline }),
{
    EmbedField { name: name.to_owned(), value: field_value(value), inline }
}

fn clone_opt(s: &Option<String>) -> (r: Option<String>)
    ensures
        r == *s,
{
    match s {
        Some(v) => Some(v.clone()),
        None => None,
    }
}

/// `r` is the notification of a first occurrence of a failure headed by
/// `headline_text`, reported with `ctx`: the headline, the context fields
/// decorated in order, a footer that shows one occurrence, the author line
/// if a name is given, and the button that asks for the full text.
pub open spec fn is_rendering(headline_text: Seq<char>, ctx: ReportContext, r: Notification) -> bool {
    &&& is_headline(headline_text, r.title@)
    &&& views_of(r.fields@) == context_fields(ctx).map_values(|f: FieldView| decorated(f))
    &&& r.footer@ == footer_text(1)
    &&& ctx.author_name is None ==> r.author is None
    &&& ctx.author_name matches Some(a) ==> (r.author matches Some(au) && au.name == a && au.icon_url
        == ctx.icon_url)
    &&& r.action_label@ == VIEW_PAYLOAD_LABEL@
    &&& r.action_id@ == VIEW_PAYLOAD_ACTION@
}

/// Renders the notification of a first occurrence: the headline of
/// `headline_text`, the context fields decorated in order, a footer that
/// shows one occurrence, the author line if a name is given, and the button
/// that asks for the full diagnostic text.
pub fn render_notification(headline_text: &str, ctx: &ReportContext) -> (r: Notification)
    ensures
        is_rendering(headline_text@, *ctx, r),
{
    let ghost want = context_fields(*ctx).map_values(|f: FieldView| decorated(f));
    let mut fields: Vec<EmbedField> = Vec::new();
    let (blank_name, blank_value, blank_inline) = blank_field();
    fields.push(make_field("Event", ctx.event.as_str(), true));
    fields.push(make_field("Bot User", ctx.bot_user.as_str(), true));
    fields.push(make_field(blank_name, blank_value, blank_inline));
    assert(views_of(fields@) =~= want.subrange(0, 3));
    let mut i: usize = 0;
    while i < ctx.extra_fields.len()
        invariant
            want == context_fields(*ctx).map_values(|f: FieldView| decorated(f)),
            i <= ctx.extra_fields@.len(),
            views_of(fields@) =~= want.subrange(0, 3 + i),
        decreases ctx.extra_fields@.len() - i,
    {
        let f = &ctx.extra_fields[i];
        let ghost before = fields@;
        fields.push(make_field(f.name.as_str(), f.value.as_str(), f.inline));
        proof {
            assert(context_fields(*ctx)[3 + i] == ctx.extra_fields@[i as int].field_view());
            assert(want[3 + i] == decorated(ctx.extra_fields@[i as int].field_view()));
            assert(views_of(fields@) =~= views_of(before).push(fields@[3 + i].field_view()));
        }
        i = i + 1;
        assert(views_of(fields@) =~= want.subrange(0, 3 + i));
    }
    let memory = decimal(ctx.memory_used / 1024);
    let shards = decimal(ctx.shard_count);
    let n = ctx.extra_fields.len();
    fields.push(make_field("CPU Usage (5 minutes)", ctx.cpu_usage.as_str(), true));
    assert(views_of(fields@) =~= want.subrange(0, 4 + n));
    fields.push(make_field("System Memory Usage", memory.as_str(), true));
    assert(views_of(fields@) =~= want.subrange(0, 5 + n));
    fields.push(make_field("Shard Count", shards.as_str(), true));
    assert(want.len() == 6 + n);
    assert(views_of(fields@) =~= want.subrange(0, 6 + n));
    assert(want.subrange(0, 6 + n) =~= want);
    let author = match &ctx.author_name {
        Some(name) => Some(Author { name: name.clone(), icon_url: clone_opt(&ctx.icon_url) }),
        None => None,
    };
    Notification {
        title: truncate_error(headline_text),
        fields,
        footer: occurrence_footer(1),
        author,
        action_label: VIEW_PAYLOAD_LABEL.to_owned(),
        action_id: VIEW_PAYLOAD_ACTION.to_owned(),
    }
}

/// Whether `custom_id` is a request for the full diagnostic text: an exact
/// match of the fixed discriminator.
pub fn is_view_payload_request(custom_id: &str) -> (r: bool)
    ensures
        r == (custom_id@ == VIEW_PAYLOAD_ACTION@),
{
    custom_id.to_owned() == VIEW_PAYLOAD_ACTION.to_owned()
}

} // verus!
