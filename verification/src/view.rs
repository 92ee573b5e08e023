//! What the three screens show, as styled text. The caller lays the panels out
//! and draws them.

use crate::guest::GuestState;
use crate::host::FlowInfo;
use crate::link::LinkInterface;
use crate::model::{
    self, age, guest_state_busy, guest_state_detail, guest_state_label, link_kind_label,
    proto_label, FlowTable, FlowsView, GuestModel, GuestModelView, HostModel, HostModelView,
    LogBuffer, LogLine, LogView,
};
use crate::report::Level;
use crate::stats::Rate;
use crate::text;
use crate::tui::{self, App, AppView, Pending, Screen, ScreenView};
use crate::units::{self, fmt_bytes};
use std::collections::VecDeque;
use vstd::prelude::*;
use vstd::string::StringExecFns;

verus! {

// Styled text.

/// A color by its role.
#[derive(Clone, Copy, Debug, PartialEq, Eq, Structural)]
pub enum Color {
    Accent,
    Good,
    Warn,
    Bad,
    Dim,
    /// The terminal's own.
    Reset,
}

/// How a text is drawn.
#[derive(Clone, Copy, Debug, PartialEq, Eq, Structural)]
pub struct Style {
    pub fg: Option<Color>,
    pub bold: bool,
}

/// A text, or a rate for the caller to write.
#[derive(Clone, Debug, PartialEq, Eq)]
pub enum Content {
    Text(String),
    Rate(Rate),
}

/// A text with its style.
#[derive(Clone, Debug, PartialEq, Eq)]
pub struct Span {
    pub content: Content,
    pub style: Style,
}

/// A text as characters, or a rate.
pub enum ContentView {
    Text(Seq<char>),
    Rate(Rate),
}

/// A text as characters, with its style.
pub struct SpanView {
    pub content: ContentView,
    pub style: Style,
}

impl View for Span {
    type V = SpanView;

    open spec fn view(&self) -> SpanView {
        SpanView {
            content: match self.content {
                Content::Text(t) => ContentView::Text(t@),
                Content::Rate(bps) => ContentView::Rate(bps),
            },
            style: self.style,
        }
    }
}

/// A line: spans one after the other. Also a row of a table: its cells.
pub open spec fn line(v: Seq<Span>) -> Seq<SpanView> {
    v.map_values(|s: Span| s@)
}

/// Lines.
pub open spec fn lines(v: Seq<Vec<Span>>) -> Seq<Seq<SpanView>> {
    v.map_values(|l: Vec<Span>| line(l@))
}

/// A text with a style.
pub open spec fn styled(t: Seq<char>, style: Style) -> SpanView {
    SpanView { content: ContentView::Text(t), style }
}

/// A text without a style.
pub open spec fn raw(t: Seq<char>) -> SpanView {
    styled(t, plain())
}

/// No style.
pub open spec fn plain() -> Style {
    Style { fg: None, bold: false }
}

/// A color.
pub open spec fn fg(c: Color) -> Style {
    Style { fg: Some(c), bold: false }
}

/// A color, bold.
pub open spec fn strong(c: Color) -> Style {
    Style { fg: Some(c), bold: true }
}

/// Bold.
pub open spec fn bold() -> Style {
    Style { fg: None, bold: true }
}

fn plainly() -> (r: Style)
    ensures
        r == plain(),
{
    Style { fg: None, bold: false }
}

fn colored(c: Color) -> (r: Style)
    ensures
        r == fg(c),
{
    Style { fg: Some(c), bold: false }
}

fn strongly(c: Color) -> (r: Style)
    ensures
        r == strong(c),
{
    Style { fg: Some(c), bold: true }
}

fn boldly() -> (r: Style)
    ensures
        r == bold(),
{
    Style { fg: None, bold: true }
}

fn put(out: &mut Vec<Span>, t: &str, style: Style)
    ensures
        line(final(out)@) == line(old(out)@).push(styled(t@, style)),
{
    let ghost before = out@;
    out.push(Span { content: Content::Text(t.to_owned()), style });
    assert(line(out@) =~= line(before).push(styled(t@, style)));
}

fn put_rate(out: &mut Vec<Span>, bps: Rate)
    ensures
        line(final(out)@) == line(old(out)@).push(
            SpanView { content: ContentView::Rate(bps), style: bold() },
        ),
{
    let ghost before = out@;
    out.push(Span { content: Content::Rate(bps), style: boldly() });
    assert(line(out@) =~= line(before).push(
        SpanView { content: ContentView::Rate(bps), style: bold() },
    ));
}

fn put_line(out: &mut Vec<Vec<Span>>, l: Vec<Span>)
    ensures
        lines(final(out)@) == lines(old(out)@).push(line(l@)),
{
    let ghost before = out@;
    out.push(l);
    assert(lines(out@) =~= lines(before).push(line(l@)));
}

fn empty_line() -> (r: Vec<Span>)
    ensures
        line(r@) == Seq::<SpanView>::empty(),
{
    let r: Vec<Span> = Vec::new();
    assert(line(r@) =~= Seq::<SpanView>::empty());
    r
}

fn no_lines() -> (r: Vec<Vec<Span>>)
    ensures
        lines(r@) == Seq::<Seq<SpanView>>::empty(),
{
    let r: Vec<Vec<Span>> = Vec::new();
    assert(lines(r@) =~= Seq::<Seq<SpanView>>::empty());
    r
}

/// One text as a line.
pub open spec fn one(t: Seq<char>, style: Style) -> Seq<SpanView> {
    seq![styled(t, style)]
}

fn only(t: &str, style: Style) -> (r: Vec<Span>)
    ensures
        line(r@) == one(t@, style),
{
    let mut l = empty_line();
    put(&mut l, t, style);
    assert(line(l@) =~= one(t@, style));
    l
}

// Frame of every screen.

/// The title of a screen.
pub open spec fn title_spans(version: Seq<char>, title: Seq<char>) -> Seq<SpanView> {
    seq![
        raw(" "@),
        styled("NetM v"@ + version, strong(Color::Accent)),
        raw(" · "@ + title + " "@),
    ]
}

/// The title of a screen of this version of the program.
pub fn title_line(version: &str, title: &str) -> (r: Vec<Span>)
    ensures
        line(r@) == title_spans(version@, title@),
{
    let mut l = empty_line();
    put(&mut l, " ", plainly());
    put(&mut l, text::cat2("NetM v", version).as_str(), strongly(Color::Accent));
    put(&mut l, text::cat3(" · ", title, " ").as_str(), plainly());
    assert(line(l@) =~= title_spans(version@, title@));
    l
}

/// Keys with what they do.
pub open spec fn hint_spans(pairs: Seq<(&str, &str)>) -> Seq<SpanView>
    decreases pairs.len(),
{
    if pairs.len() == 0 {
        seq![raw(" "@)]
    } else {
        let before = hint_spans(pairs.drop_last());
        let gap = if pairs.len() > 1 {
            before.push(raw("  "@))
        } else {
            before
        };
        gap.push(styled(pairs.last().0@, strong(Color::Accent))).push(
            raw(" "@ + pairs.last().1@),
        )
    }
}

/// Keys with what they do, as a line.
pub fn key_hint(pairs: &[(&str, &str)]) -> (r: Vec<Span>)
    ensures
        line(r@) == hint_spans(pairs@).push(raw(" "@)),
{
    let mut l = empty_line();
    put(&mut l, " ", plainly());
    let ghost all = pairs@;
    assert(all.take(0) =~= Seq::<(&str, &str)>::empty());
    assert(line(l@) =~= hint_spans(all.take(0)));
    let mut i: usize = 0;
    while i < pairs.len()
        invariant
            all == pairs@,
            i <= all.len(),
            line(l@) == hint_spans(all.take(i as int)),
        decreases all.len() - i,
    {
        assert(all.take(i + 1).drop_last() =~= all.take(i as int));
        if i > 0 {
            put(&mut l, "  ", plainly());
        }
        put(&mut l, pairs[i].0, strongly(Color::Accent));
        put(&mut l, text::cat2(" ", pairs[i].1).as_str(), plainly());
        i = i + 1;
    }
    assert(all.take(i as int) =~= all);
    put(&mut l, " ", plainly());
    l
}

/// The keys of the screen of a mode, or of the log.
pub open spec fn footer_keys(log_focus: bool) -> Seq<(&'static str, &'static str)> {
    if log_focus {
        seq![
            ("↑↓ PgUp PgDn", "滚动日志"),
            ("End", "跟随最新"),
            ("Esc/l", "退出日志"),
            ("q", "退出"),
        ]
    } else {
        seq![("q", "退出"), ("m", "切换模式"), ("l", "日志"), ("?", "帮助")]
    }
}

/// The bottom of the screen of a mode: a notice if there is one, else keys.
pub open spec fn footer_spans(app: AppView) -> Seq<SpanView> {
    match app.notice {
        Some(n) => seq![raw(" "@), styled(n, strong(Color::Warn)), raw(" "@)],
        None => hint_spans(footer_keys(app.log_focus)).push(raw(" "@)),
    }
}

/// The bottom of the screen of a mode.
pub fn footer_line(app: &App) -> (r: Vec<Span>)
    ensures
        line(r@) == footer_spans(app@),
{
    if let Some(n) = &app.notice {
        let mut l = empty_line();
        put(&mut l, " ", plainly());
        put(&mut l, n.as_str(), strongly(Color::Warn));
        put(&mut l, " ", plainly());
        assert(line(l@) =~= footer_spans(app@));
        return l;
    }
    if app.log_focus {
        let keys: [(&str, &str); 4] = [
            ("↑↓ PgUp PgDn", "滚动日志"),
            ("End", "跟随最新"),
            ("Esc/l", "退出日志"),
            ("q", "退出"),
        ];
        assert(keys@ =~= footer_keys(true));
        return key_hint(keys.as_slice());
    }
    let keys: [(&str, &str); 4] = [
        ("q", "退出"),
        ("m", "切换模式"),
        ("l", "日志"),
        ("?", "帮助"),
    ];
    assert(keys@ =~= footer_keys(false));
    key_hint(keys.as_slice())
}

// Onboarding.

/// What the first screen shows.
#[derive(Debug)]
pub struct Onboarding {
    pub keys: Vec<Span>,
    pub title: Vec<Span>,
    pub description: Vec<Vec<Span>>,
    /// The roles to choose from.
    pub roles: Vec<Vec<Span>>,
    pub selected: usize,
    pub hint: Vec<Span>,
}

/// The keys of the first screen.
pub open spec fn onboarding_keys() -> Seq<(&'static str, &'static str)> {
    seq![("↑↓", "选择"), ("Enter", "确认"), ("q/Esc", "退出")]
}

/// What the program is for.
pub open spec fn onboarding_description() -> Seq<Seq<SpanView>> {
    seq![
        one("用一根 Type-C（雷电 / USB4）线把一台电脑的网络借给另一台电脑。"@, plain()),
        one("两台机器各运行一个 netm：一台作为宿主机提供出口，另一台作为客机上网。"@, plain()),
        one(""@, plain()),
        one("请选择这台电脑的角色（之后可按 m 随时切换）："@, fg(Color::Dim)),
    ]
}

/// The roles to choose from.
pub open spec fn role_lines() -> Seq<Seq<SpanView>> {
    seq![
        seq![
            styled("宿主机（服务端）"@, bold()),
            raw(" — 已接入网络，为客机提供出口"@),
        ],
        seq![
            styled("客机"@, bold()),
            raw(" — 通过 Type-C 借用宿主机的网络（需要管理员权限）"@),
        ],
    ]
}

/// The first screen, where one of the two roles is selected.
pub fn onboarding(app: &App, selected: usize) -> (r: Onboarding)
    ensures
        line(r.keys@) == hint_spans(onboarding_keys()).push(raw(" "@)),
        line(r.title@) == one("NetM"@, strong(Color::Accent)),
        lines(r.description@) == onboarding_description(),
        lines(r.roles@) == role_lines(),
        r.selected == selected,
        line(r.hint@) == one("配置文件："@ + app@.config_path, fg(Color::Dim)),
{
    let keys: [(&str, &str); 3] = [("↑↓", "选择"), ("Enter", "确认"), ("q/Esc", "退出")];
    assert(keys@ =~= onboarding_keys());
    let mut description = no_lines();
    put_line(
        &mut description,
        only("用一根 Type-C（雷电 / USB4）线把一台电脑的网络借给另一台电脑。", plainly()),
    );
    put_line(
        &mut description,
        only("两台机器各运行一个 netm：一台作为宿主机提供出口，另一台作为客机上网。", plainly()),
    );
    put_line(&mut description, only("", plainly()));
    put_line(
        &mut description,
        only("请选择这台电脑的角色（之后可按 m 随时切换）：", colored(Color::Dim)),
    );
    assert(lines(description@) =~= onboarding_description());
    let mut host = empty_line();
    put(&mut host, "宿主机（服务端）", boldly());
    put(&mut host, " — 已接入网络，为客机提供出口", plainly());
    assert(line(host@) =~= role_lines()[0]);
    let mut guest = empty_line();
    put(&mut guest, "客机", boldly());
    put(&mut guest, " — 通过 Type-C 借用宿主机的网络（需要管理员权限）", plainly());
    assert(line(guest@) =~= role_lines()[1]);
    let mut roles = no_lines();
    put_line(&mut roles, host);
    put_line(&mut roles, guest);
    assert(lines(roles@) =~= role_lines());
    Onboarding {
        keys: key_hint(keys.as_slice()),
        title: only("NetM", strongly(Color::Accent)),
        description,
        roles,
        selected,
        hint: only(
            text::cat2("配置文件：", app.config_path.as_str()).as_str(),
            colored(Color::Dim),
        ),
    }
}

// Guest.

/// A panel of one or more lines with the color of its border.
#[derive(Debug)]
pub struct Panel {
    pub border: Color,
    pub lines: Vec<Vec<Span>>,
}

/// The color of a guest's state.
pub open spec fn state_color(m: GuestModelView) -> Color {
    if m.fatal is Some {
        Color::Bad
    } else if m.state is Connected {
        Color::Good
    } else if m.state is Disconnected {
        Color::Warn
    } else {
        Color::Accent
    }
}

/// A bullet, or the spinner while something is under way and the program does
/// not stop.
pub open spec fn bullet(app: AppView, busy: bool) -> Seq<char> {
    if busy && app.pending == Pending::Nothing {
        tui::spinner_frame(app.ticks as nat % 10)
    } else {
        "●"@
    }
}

/// The state of a guest.
pub open spec fn guest_status_spans(app: AppView, m: GuestModelView) -> Seq<SpanView> {
    let color = state_color(m);
    let head = seq![
        raw(" "@),
        styled(bullet(app, m.fatal is None && model::state_busy(m.state)), fg(color)),
        raw(" "@),
        styled(
            if m.fatal is Some {
                "运行出错"@
            } else {
                model::state_label(m.state)
            },
            strong(color),
        ),
    ];
    let detail = if m.fatal is Some {
        m.fatal
    } else {
        model::state_detail(m.state)
    };
    match detail {
        Some(d) => head.push(styled("  "@ + d, fg(Color::Dim))),
        None => head,
    }
}

/// The state of a guest.
pub fn guest_status(app: &App, m: &GuestModel) -> (r: Panel)
    ensures
        r.border == state_color(m@),
        lines(r.lines@) == seq![guest_status_spans(app@, m@)],
{
    let color = match (&m.fatal, &m.state) {
        (Some(_), _) => Color::Bad,
        (None, GuestState::Connected { .. }) => Color::Good,
        (None, GuestState::Disconnected { .. }) => Color::Warn,
        (None, _) => Color::Accent,
    };
    let busy: bool = m.fatal.is_none() && guest_state_busy(&m.state);
    let mut l = empty_line();
    put(&mut l, " ", plainly());
    if busy && !app.is_quitting() {
        put(&mut l, app.spinner(), colored(color));
    } else {
        put(&mut l, "●", colored(color));
    }
    put(&mut l, " ", plainly());
    let detail = match &m.fatal {
        Some(f) => {
            put(&mut l, "运行出错", strongly(color));
            Some(f.clone())
        },
        None => {
            put(&mut l, guest_state_label(&m.state), strongly(color));
            guest_state_detail(&m.state)
        },
    };
    if let Some(d) = detail {
        put(&mut l, text::cat2("  ", d.as_str()).as_str(), colored(Color::Dim));
    }
    assert(line(l@) =~= guest_status_spans(app@, m@));
    let mut all = no_lines();
    put_line(&mut all, l);
    assert(lines(all@) =~= seq![guest_status_spans(app@, m@)]);
    Panel { border: color, lines: all }
}

/// Banner shown after the tunnel went away, so the user is never left
/// guessing whether their machine still has network.
pub fn egress_warning(warning: &str) -> (r: Panel)
    ensures
        r.border == Color::Warn,
        lines(r.lines@) == seq![seq![raw(" "@), styled(warning@, strong(Color::Warn))]],
{
    let mut l = empty_line();
    put(&mut l, " ", plainly());
    put(&mut l, warning, strongly(Color::Warn));
    assert(line(l@) =~= seq![raw(" "@), styled(warning@, strong(Color::Warn))]);
    let mut all = no_lines();
    put_line(&mut all, l);
    assert(lines(all@) =~= seq![seq![raw(" "@), styled(warning@, strong(Color::Warn))]]);
    Panel { border: Color::Warn, lines: all }
}

/// A table: its title, the names of its columns and its rows.
#[derive(Debug)]
pub struct Table {
    pub title: String,
    pub header: Vec<Span>,
    pub rows: Vec<Vec<Span>>,
}

/// The head of a table of interfaces.
pub open spec fn interfaces_header(ready_col: Seq<char>) -> Seq<SpanView> {
    seq![
        styled("网卡"@, strong(Color::Dim)),
        styled("类型"@, strong(Color::Dim)),
        styled(ready_col, strong(Color::Dim)),
        styled("fe80 地址"@, strong(Color::Dim)),
    ]
}

/// The row of an interface.
pub open spec fn interface_row(l: LinkInterface) -> Seq<SpanView> {
    seq![
        styled(
            l.name@,
            if l@.ready() {
                bold()
            } else {
                plain()
            },
        ),
        raw(model::kind_label(l.kind)),
        if l@.ready() {
            styled("是"@, fg(Color::Good))
        } else {
            styled("否"@, fg(Color::Dim))
        },
        styled(
            match l.link_local_v6 {
                Some(a) => crate::net::ipv6_text(a),
                None => "-"@,
            },
            fg(Color::Dim),
        ),
    ]
}

/// The rows of a table of interfaces.
pub open spec fn interface_rows(list: Seq<LinkInterface>) -> Seq<Seq<SpanView>> {
    if list.len() == 0 {
        seq![seq![styled("（未发现候选网卡）"@, fg(Color::Dim)), raw(""@), raw(""@), raw(""@)]]
    } else {
        list.map_values(|l: LinkInterface| interface_row(l))
    }
}

fn row_of(l: &LinkInterface) -> (r: Vec<Span>)
    ensures
        line(r@) == interface_row(*l),
{
    let ready: bool = l.is_ready();
    let mut row = empty_line();
    put(
        &mut row,
        l.name.as_str(),
        if ready {
            boldly()
        } else {
            plainly()
        },
    );
    put(&mut row, link_kind_label(l.kind), plainly());
    if ready {
        put(&mut row, "是", colored(Color::Good));
    } else {
        put(&mut row, "否", colored(Color::Dim));
    }
    match l.link_local_v6 {
        Some(a) => put(&mut row, a.text().as_str(), colored(Color::Dim)),
        None => put(&mut row, "-", colored(Color::Dim)),
    }
    assert(line(row@) =~= interface_row(*l));
    row
}

/// The table of the candidate interfaces.
pub fn interfaces(list: &Vec<LinkInterface>, title: &str, ready_col: &str) -> (r: Table)
    ensures
        r.title@ == " "@ + title@ + " "@,
        line(r.header@) == interfaces_header(ready_col@),
        lines(r.rows@) == interface_rows(list@),
{
    let mut header = empty_line();
    put(&mut header, "网卡", strongly(Color::Dim));
    put(&mut header, "类型", strongly(Color::Dim));
    put(&mut header, ready_col, strongly(Color::Dim));
    put(&mut header, "fe80 地址", strongly(Color::Dim));
    assert(line(header@) =~= interfaces_header(ready_col@));
    let mut rows = no_lines();
    if list.len() == 0 {
        let mut row = empty_line();
        put(&mut row, "（未发现候选网卡）", colored(Color::Dim));
        put(&mut row, "", plainly());
        put(&mut row, "", plainly());
        put(&mut row, "", plainly());
        assert(line(row@) =~= interface_rows(list@)[0]);
        put_line(&mut rows, row);
        assert(lines(rows@) =~= interface_rows(list@));
    } else {
        let ghost all = list@.map_values(|l: LinkInterface| interface_row(l));
        let mut i: usize = 0;
        assert(lines(rows@) =~= all.take(0));
        while i < list.len()
            invariant
                all == list@.map_values(|l: LinkInterface| interface_row(l)),
                i <= list@.len(),
                lines(rows@) == all.take(i as int),
            decreases list@.len() - i,
        {
            put_line(&mut rows, row_of(&list[i]));
            assert(all.take(i + 1) =~= all.take(i as int).push(all[i as int]));
            i = i + 1;
        }
        assert(all.take(i as int) =~= all);
    }
    Table { title: text::cat3(" ", title, " "), header, rows }
}

// Keys and values.

/// The longest key.
pub open spec fn key_width(pairs: Seq<(Seq<char>, Seq<char>)>) -> nat
    decreases pairs.len(),
{
    if pairs.len() == 0 {
        0
    } else {
        let w = key_width(pairs.drop_last());
        if pairs.last().0.len() > w {
            pairs.last().0.len()
        } else {
            w
        }
    }
}

/// Some of the same character.
pub open spec fn repeated(c: char, n: nat) -> Seq<char> {
    Seq::new(n, |i: int| c)
}

/// A key, filled up with wide spaces, and its value.
pub open spec fn pair_spans(p: (Seq<char>, Seq<char>), width: nat) -> Seq<SpanView> {
    seq![
        styled(
            " "@ + p.0 + repeated('　', (width - p.0.len()) as nat) + " "@,
            fg(Color::Dim),
        ),
        raw(p.1),
    ]
}

/// Keys, aligned, and their values.
pub open spec fn kv_spans(pairs: Seq<(Seq<char>, Seq<char>)>) -> Seq<Seq<SpanView>> {
    pairs.map_values(|p: (Seq<char>, Seq<char>)| pair_spans(p, key_width(pairs)))
}

fn fill(s: &mut String, c: char, n: usize)
    ensures
        final(s)@ == old(s)@ + repeated(c, n as nat),
{
    let ghost before = s@;
    let mut i: usize = 0;
    assert(before + repeated(c, 0) =~= before);
    while i < n
        invariant
            i <= n,
            s@ == before + repeated(c, i as nat),
        decreases n - i,
    {
        s.push(c);
        i = i + 1;
        assert(s@ =~= before + repeated(c, i as nat));
    }
}

fn count(s: &str) -> (r: usize)
    ensures
        r == s@.len(),
{
    text::chars(s).len()
}

proof fn no_key_is_wider(pairs: Seq<(Seq<char>, Seq<char>)>, i: int)
    requires
        0 <= i < pairs.len(),
    ensures
        pairs[i].0.len() <= key_width(pairs),
    decreases pairs.len(),
{
    if i < pairs.len() - 1 {
        assert(pairs.drop_last()[i] == pairs[i]);
        no_key_is_wider(pairs.drop_last(), i);
    }
}

/// Keys, aligned, and their values.
pub fn kv_lines(pairs: &Vec<(String, String)>) -> (r: Vec<Vec<Span>>)
    ensures
        lines(r@) == kv_spans(tui::pairs_view(pairs@)),
{
    let ghost all = tui::pairs_view(pairs@);
    let mut width: usize = 0;
    let mut i: usize = 0;
    assert(all.take(0) =~= Seq::<(Seq<char>, Seq<char>)>::empty());
    while i < pairs.len()
        invariant
            all == tui::pairs_view(pairs@),
            i <= pairs@.len(),
            width == key_width(all.take(i as int)),
        decreases pairs@.len() - i,
    {
        assert(all.take(i + 1).drop_last() =~= all.take(i as int));
        let n: usize = count(pairs[i].0.as_str());
        if n > width {
            width = n;
        }
        i = i + 1;
    }
    assert(all.take(i as int) =~= all);
    let mut out = no_lines();
    let ghost done = kv_spans(all);
    i = 0;
    assert(lines(out@) =~= done.take(0));
    while i < pairs.len()
        invariant
            all == tui::pairs_view(pairs@),
            done == kv_spans(all),
            width == key_width(all),
            i <= pairs@.len(),
            lines(out@) == done.take(i as int),
        decreases pairs@.len() - i,
    {
        proof {
            no_key_is_wider(all, i as int);
        }
        let n: usize = count(pairs[i].0.as_str());
        let mut key = text::cat2(" ", pairs[i].0.as_str());
        fill(&mut key, '　', width - n);
        key.append(" ");
        let mut l = empty_line();
        put(&mut l, key.as_str(), colored(Color::Dim));
        put(&mut l, pairs[i].1.as_str(), plainly());
        assert(line(l@) =~= pair_spans(all[i as int], key_width(all)));
        put_line(&mut out, l);
        assert(done.take(i + 1) =~= done.take(i as int).push(done[i as int]));
        i = i + 1;
    }
    assert(done.take(i as int) =~= done);
    out
}

fn put_pair(out: &mut Vec<(String, String)>, key: &str, value: String)
    ensures
        tui::pairs_view(final(out)@) == tui::pairs_view(old(out)@).push((key@, value@)),
{
    let ghost before = out@;
    out.push((key.to_owned(), value));
    assert(tui::pairs_view(out@) =~= tui::pairs_view(before).push((key@, value@)));
}

fn no_pairs() -> (r: Vec<(String, String)>)
    ensures
        tui::pairs_view(r@) == Seq::<(Seq<char>, Seq<char>)>::empty(),
{
    let r: Vec<(String, String)> = Vec::new();
    assert(tui::pairs_view(r@) =~= Seq::<(Seq<char>, Seq<char>)>::empty());
    r
}

/// What of a guest's configuration is shown while it is connected.
pub open spec fn kept(summary: Seq<(Seq<char>, Seq<char>)>) -> Seq<(Seq<char>, Seq<char>)>
    decreases summary.len(),
{
    if summary.len() == 0 {
        Seq::empty()
    } else if summary.last().0 == "路由"@ || summary.last().0 == "系统 DNS"@ {
        kept(summary.drop_last()).push(summary.last())
    } else {
        kept(summary.drop_last())
    }
}

/// A measured link.
pub open spec fn speed_pairs(measured: bool, rates: Seq<char>) -> Seq<(Seq<char>, Seq<char>)> {
    if measured {
        seq![("线路"@, rates)]
    } else {
        Seq::empty()
    }
}

/// What is shown of a connection at the time `now`; `rates` are those of the
/// link, if it was measured.
pub open spec fn connection_pairs(
    summary: Seq<(Seq<char>, Seq<char>)>,
    m: GuestModelView,
    now: u64,
    rates: Seq<char>,
) -> Seq<(Seq<char>, Seq<char>)> {
    match m.state {
        GuestState::Connected { host, host_name, tun, config, since } => seq![
            ("宿主机"@, host_name@ + "  "@ + host.spec_text()),
            ("TUN"@, tun@),
            (
                "虚拟 IP"@,
                config.guest_ip.spec_text() + "/"@ + text::dec(config.prefix_len as nat),
            ),
            ("网关 / DNS"@, config.gateway_ip.spec_text() + " / "@ + config.dns.spec_text()),
            ("MTU"@, text::dec(config.mtu as nat)),
            ("已连接"@, units::duration_text(model::seconds_between(since, now))),
        ] + speed_pairs(m.link_speed is Some, rates) + kept(summary),
        _ => summary.push(("虚拟 IP"@, "-"@)).push(("TUN"@, "-"@)),
    }
}

/// What is shown of a guest's connection at the time `now`, in milliseconds;
/// `rates` are those of the link, if it was measured.
pub fn guest_connection(app: &App, m: &GuestModel, now: u64, rates: &str) -> (r: Vec<Vec<Span>>)
    ensures
        lines(r@) == kv_spans(connection_pairs(app@.guest_summary, m@, now, rates@)),
{
    let mut pairs = no_pairs();
    let ghost all = app@.guest_summary;
    match &m.state {
        GuestState::Connected { host, host_name, tun, config, since } => {
            put_pair(
                &mut pairs,
                "宿主机",
                text::cat3(host_name.as_str(), "  ", host.text().as_str()),
            );
            put_pair(&mut pairs, "TUN", tun.clone());
            put_pair(
                &mut pairs,
                "虚拟 IP",
                text::cat3(
                    config.guest_ip.text().as_str(),
                    "/",
                    text::decimal(config.prefix_len as u64).as_str(),
                ),
            );
            put_pair(
                &mut pairs,
                "网关 / DNS",
                text::cat3(config.gateway_ip.text().as_str(), " / ", config.dns.text().as_str()),
            );
            put_pair(&mut pairs, "MTU", text::decimal(config.mtu as u64));
            put_pair(&mut pairs, "已连接", age(*since, now));
            if m.link_speed.is_some() {
                put_pair(&mut pairs, "线路", rates.to_owned());
            }
            let ghost head = tui::pairs_view(pairs@);
            let mut i: usize = 0;
            assert(all.take(0) =~= Seq::<(Seq<char>, Seq<char>)>::empty());
            assert(head + kept(all.take(0)) =~= head);
            while i < app.guest_summary.len()
                invariant
                    all == tui::pairs_view(app.guest_summary@),
                    i <= all.len(),
                    tui::pairs_view(pairs@) == head + kept(all.take(i as int)),
                decreases all.len() - i,
            {
                assert(all.take(i + 1).drop_last() =~= all.take(i as int));
                assert(all.take(i + 1).last() == all[i as int]);
                let (key, value) = (&app.guest_summary[i].0, &app.guest_summary[i].1);
                if text::same(key.as_str(), "路由") || text::same(key.as_str(), "系统 DNS") {
                    put_pair(&mut pairs, key.as_str(), value.clone());
                    assert(tui::pairs_view(pairs@) =~= head + kept(all.take(i + 1)));
                }
                i = i + 1;
            }
            assert(all.take(i as int) =~= all);
            assert(tui::pairs_view(pairs@) =~= connection_pairs(all, m@, now, rates@));
        },
        _ => {
            let mut i: usize = 0;
            assert(tui::pairs_view(pairs@) =~= all.take(0));
            while i < app.guest_summary.len()
                invariant
                    all == tui::pairs_view(app.guest_summary@),
                    i <= all.len(),
                    tui::pairs_view(pairs@) == all.take(i as int),
                decreases all.len() - i,
            {
                let (key, value) = (&app.guest_summary[i].0, &app.guest_summary[i].1);
                put_pair(&mut pairs, key.as_str(), value.clone());
                assert(all.take(i + 1) =~= all.take(i as int).push(all[i as int]));
                i = i + 1;
            }
            assert(all.take(i as int) =~= all);
            put_pair(&mut pairs, "虚拟 IP", "-".to_owned());
            put_pair(&mut pairs, "TUN", "-".to_owned());
        },
    }
    kv_lines(&pairs)
}

// Host.

/// The color of a host's state, and the state.
pub open spec fn host_state(m: HostModelView) -> (Color, Seq<char>) {
    match (m.fatal, m.listening) {
        (Some(f), _) => (Color::Bad, "运行出错："@ + f),
        (None, Some(a)) => (Color::Good, "监听 "@ + a.spec_text()),
        (None, None) => (Color::Accent, "正在启动…"@),
    }
}

/// The state of a host.
pub open spec fn host_state_spans(app: AppView, m: HostModelView) -> Seq<SpanView> {
    let (color, status) = host_state(m);
    seq![
        raw(" "@),
        styled(bullet(app, m.listening is None && m.fatal is None), fg(color)),
        raw(" "@),
        styled(status, strong(color)),
        styled("   主机名 "@ + m.host_name, fg(Color::Dim)),
    ]
}

/// A link of a host with its state.
pub open spec fn link_spans(name: Seq<char>, good: bool, state: Seq<char>) -> Seq<SpanView> {
    seq![
        styled(
            name,
            if good {
                strong(Color::Good)
            } else {
                fg(Color::Dim)
            },
        ),
        styled(
            "("@ + state + ")"@,
            fg(
                if good {
                    Color::Good
                } else {
                    Color::Dim
                },
            ),
        ),
    ]
}

/// An interface of a host.
pub open spec fn host_link_spans(l: LinkInterface) -> Seq<SpanView> {
    link_spans(
        l.name@,
        l@.ready(),
        if l@.ready() {
            "已连线"@
        } else {
            "未连线"@
        },
    )
}

/// The interfaces of a host, with gaps between them.
pub open spec fn host_links_spans(list: Seq<LinkInterface>) -> Seq<SpanView>
    decreases list.len(),
{
    if list.len() == 0 {
        Seq::empty()
    } else {
        let before = host_links_spans(list.drop_last());
        (if list.len() > 1 {
            before.push(raw("  "@))
        } else {
            before
        }) + host_link_spans(list.last())
    }
}

/// The links of a host: its interfaces and its serial port.
pub open spec fn host_line_spans(m: HostModelView) -> Seq<SpanView> {
    let head = seq![styled(" 链路 "@, fg(Color::Dim))];
    let some = if m.interfaces.len() == 0 && m.serial_state is None {
        head.push(styled("（未发现候选网卡）"@, fg(Color::Dim)))
    } else {
        head
    } + host_links_spans(m.interfaces);
    match m.serial_state {
        Some((path, open)) => (if m.interfaces.len() > 0 {
            some.push(raw("  "@))
        } else {
            some
        }) + link_spans(
            "串口 "@ + path,
            open,
            if open {
                "已打开"@
            } else {
                "已关闭"@
            },
        ),
        None => some,
    }
}

fn put_link(out: &mut Vec<Span>, name: &str, good: bool, state: &str)
    ensures
        line(final(out)@) == line(old(out)@) + link_spans(name@, good, state@),
{
    let ghost before = line(out@);
    put(
        out,
        name,
        if good {
            strongly(Color::Good)
        } else {
            colored(Color::Dim)
        },
    );
    put(
        out,
        text::cat3("(", state, ")").as_str(),
        colored(
            if good {
                Color::Good
            } else {
                Color::Dim
            },
        ),
    );
    assert(line(out@) =~= before + link_spans(name@, good, state@));
}

fn host_line(m: &HostModel) -> (r: Vec<Span>)
    ensures
        line(r@) == host_line_spans(m@),
{
    let mut l = empty_line();
    put(&mut l, " 链路 ", colored(Color::Dim));
    if m.interfaces.len() == 0 && m.serial_state.is_none() {
        put(&mut l, "（未发现候选网卡）", colored(Color::Dim));
    }
    let ghost head = line(l@);
    let ghost all = m.interfaces@;
    proof {
        let first = seq![styled(" 链路 "@, fg(Color::Dim))];
        if all.len() == 0 && m@.serial_state is None {
            assert(head =~= first.push(styled("（未发现候选网卡）"@, fg(Color::Dim))));
        } else {
            assert(head =~= first);
        }
    }
    let mut i: usize = 0;
    assert(all.take(0) =~= Seq::<LinkInterface>::empty());
    assert(head + host_links_spans(all.take(0)) =~= head);
    while i < m.interfaces.len()
        invariant
            all == m.interfaces@,
            i <= all.len(),
            line(l@) == head + host_links_spans(all.take(i as int)),
        decreases all.len() - i,
    {
        let ghost before = host_links_spans(all.take(i as int));
        assert(all.take(i + 1).drop_last() =~= all.take(i as int));
        if i > 0 {
            put(&mut l, "  ", plainly());
        }
        let ghost gap = if i > 0 {
            before.push(raw("  "@))
        } else {
            before
        };
        assert(line(l@) =~= head + gap);
        let ready: bool = m.interfaces[i].is_ready();
        put_link(
            &mut l,
            m.interfaces[i].name.as_str(),
            ready,
            if ready {
                "已连线"
            } else {
                "未连线"
            },
        );
        assert(line(l@) =~= head + (gap + host_link_spans(all[i as int])));
        i = i + 1;
    }
    assert(all.take(i as int) =~= all);
    if let Some((path, open)) = &m.serial_state {
        if m.interfaces.len() > 0 {
            put(&mut l, "  ", plainly());
        }
        put_link(
            &mut l,
            text::cat2("串口 ", path.as_str()).as_str(),
            *open,
            if *open {
                "已打开"
            } else {
                "已关闭"
            },
        );
    }
    l
}

/// The state of a host and its links.
pub fn host_header(app: &App, m: &HostModel) -> (r: Panel)
    ensures
        r.border == host_state(m@).0,
        lines(r.lines@) == seq![host_state_spans(app@, m@), host_line_spans(m@)],
{
    let (color, status) = match (&m.fatal, m.listening) {
        (Some(f), _) => (Color::Bad, text::cat2("运行出错：", f.as_str())),
        (None, Some(a)) => (Color::Good, text::cat2("监听 ", a.text().as_str())),
        (None, None) => (Color::Accent, "正在启动…".to_owned()),
    };
    let mut first = empty_line();
    put(&mut first, " ", plainly());
    if m.listening.is_none() && m.fatal.is_none() && !app.is_quitting() {
        put(&mut first, app.spinner(), colored(color));
    } else {
        put(&mut first, "●", colored(color));
    }
    put(&mut first, " ", plainly());
    put(&mut first, status.as_str(), strongly(color));
    put(
        &mut first,
        text::cat2("   主机名 ", m.host_name.as_str()).as_str(),
        colored(Color::Dim),
    );
    assert(line(first@) =~= host_state_spans(app@, m@));
    let mut all = no_lines();
    put_line(&mut all, first);
    put_line(&mut all, host_line(m));
    assert(lines(all@) =~= seq![host_state_spans(app@, m@), host_line_spans(m@)]);
    Panel { border: color, lines: all }
}

/// What is shown of a host's guest at the time `now`; `rates` are those of the
/// link, if it was measured.
pub open spec fn guest_pairs(m: HostModelView, now: u64, rates: Seq<char>) -> Seq<
    (Seq<char>, Seq<char>),
> {
    match m.guest {
        Some(g) => seq![
            ("状态"@, "已连接"@),
            ("名称"@, g.name@),
            ("对端"@, g.peer.spec_text()),
            ("分配 IP"@, g.assigned_ip.spec_text()),
            ("连接时长"@, units::duration_text(model::seconds_between(g.connected_at, now))),
        ] + speed_pairs(m.link_speed is Some, rates),
        None => match m.last_disconnect {
            Some(reason) => seq![("状态"@, "等待客机连接"@), ("上次断开"@, reason)],
            None => seq![("状态"@, "等待客机连接"@)],
        },
    }
}

/// What is shown of a host's guest at the time `now`, in milliseconds; `rates`
/// are those of the link, if it was measured.
pub fn host_guest(m: &HostModel, now: u64, rates: &str) -> (r: Panel)
    ensures
        r.border == (if m.guest is Some {
            Color::Good
        } else {
            Color::Dim
        }),
        lines(r.lines@) == kv_spans(guest_pairs(m@, now, rates@)),
{
    let mut pairs = no_pairs();
    let border = match &m.guest {
        Some(g) => {
            put_pair(&mut pairs, "状态", "已连接".to_owned());
            put_pair(&mut pairs, "名称", g.name.clone());
            put_pair(&mut pairs, "对端", g.peer.text());
            put_pair(&mut pairs, "分配 IP", g.assigned_ip.text());
            put_pair(&mut pairs, "连接时长", age(g.connected_at, now));
            if m.link_speed.is_some() {
                put_pair(&mut pairs, "线路", rates.to_owned());
            }
            Color::Good
        },
        None => {
            put_pair(&mut pairs, "状态", "等待客机连接".to_owned());
            if let Some(reason) = &m.last_disconnect {
                put_pair(&mut pairs, "上次断开", reason.clone());
            }
            Color::Dim
        },
    };
    assert(tui::pairs_view(pairs@) =~= guest_pairs(m@, now, rates@));
    Panel { border, lines: kv_lines(&pairs) }
}

/// The head of the table of flows.
pub open spec fn flows_header() -> Seq<SpanView> {
    seq![
        styled("协议"@, strong(Color::Dim)),
        styled("源端口"@, strong(Color::Dim)),
        styled("目标"@, strong(Color::Dim)),
        styled("时长"@, strong(Color::Dim)),
    ]
}

/// The row of a flow at the time `now`.
pub open spec fn flow_row(f: FlowInfo, now: u64) -> Seq<SpanView> {
    seq![
        raw(model::proto_text(f.proto)),
        raw(text::dec(f.src.spec_port() as nat)),
        raw(f.dst.spec_text()),
        styled(
            units::duration_text(model::seconds_between(f.opened_at, now)),
            fg(Color::Dim),
        ),
    ]
}

/// The rows of flows at the time `now`.
pub open spec fn flow_rows(flows: Seq<FlowInfo>, now: u64) -> Seq<Seq<SpanView>> {
    flows.map_values(|f: FlowInfo| flow_row(f, now))
}

/// The title of the table of flows.
pub open spec fn flows_title(f: FlowsView) -> Seq<char> {
    " 活跃连接 "@ + text::dec(f.active.dom().len()) + "   已关闭 "@ + text::dec(
        f.closed_count as nat,
    ) + "   累计 "@ + units::bytes_text(f.total()) + " "@
}

fn flow_cells(f: &FlowInfo, now: u64) -> (r: Vec<Span>)
    ensures
        line(r@) == flow_row(*f, now),
{
    let mut row = empty_line();
    put(&mut row, proto_label(&f.proto), plainly());
    put(&mut row, text::decimal(f.src.port() as u64).as_str(), plainly());
    put(&mut row, f.dst.text().as_str(), plainly());
    put(&mut row, age(f.opened_at, now).as_str(), colored(Color::Dim));
    assert(line(row@) =~= flow_row(*f, now));
    row
}

/// The table of the active flows at the time `now`, in milliseconds; the
/// newest comes first.
pub fn flows(table: &FlowTable, now: u64) -> (r: Table)
    requires
        table@.wf(),
        table@.total() <= u64::MAX,
    ensures
        r.title@ == flows_title(table@),
        line(r.header@) == flows_header(),
        exists|list: Seq<FlowInfo>| #[trigger]
            model::newest_first(list, table@.active) && lines(r.rows@) == flow_rows(list, now),
{
    let mut header = empty_line();
    put(&mut header, "协议", strongly(Color::Dim));
    put(&mut header, "源端口", strongly(Color::Dim));
    put(&mut header, "目标", strongly(Color::Dim));
    put(&mut header, "时长", strongly(Color::Dim));
    assert(line(header@) =~= flows_header());
    let list = table.active();
    let ghost all = flow_rows(list@, now);
    let mut rows = no_lines();
    let mut i: usize = 0;
    assert(lines(rows@) =~= all.take(0));
    while i < list.len()
        invariant
            all == flow_rows(list@, now),
            i <= list@.len(),
            lines(rows@) == all.take(i as int),
        decreases list@.len() - i,
    {
        put_line(&mut rows, flow_cells(&list[i], now));
        assert(all.take(i + 1) =~= all.take(i as int).push(all[i as int]));
        i = i + 1;
    }
    assert(all.take(i as int) =~= all);
    let mut title = text::cat3(
        " 活跃连接 ",
        text::decimal(table.active_len() as u64).as_str(),
        "   已关闭 ",
    );
    title.append(text::decimal(table.closed_count).as_str());
    title.append("   累计 ");
    title.append(fmt_bytes(table.total_bytes()).as_str());
    title.append(" ");
    assert(model::newest_first(list@, table@.active));
    Table { title, header, rows }
}

// Shared panels.

/// A rate and the total of a direction.
pub open spec fn rate_spans(arrow: Seq<char>, label: Seq<char>, bps: Rate, total: u64) -> Seq<
    Seq<SpanView>,
> {
    seq![
        seq![
            styled(" "@ + arrow + " "@, strong(Color::Accent)),
            SpanView { content: ContentView::Rate(bps), style: bold() },
        ],
        seq![
            styled("   "@ + label + " "@, fg(Color::Dim)),
            styled("累计 "@ + units::bytes_text(total as nat), fg(Color::Dim)),
        ],
    ]
}

/// A rate and the total of a direction.
pub fn rate_lines(arrow: &str, label: &str, bps: Rate, total: u64) -> (r: Vec<Vec<Span>>)
    ensures
        lines(r@) == rate_spans(arrow@, label@, bps, total),
{
    let mut first = empty_line();
    put(&mut first, text::cat3(" ", arrow, " ").as_str(), strongly(Color::Accent));
    put_rate(&mut first, bps);
    assert(line(first@) =~= rate_spans(arrow@, label@, bps, total)[0]);
    let mut second = empty_line();
    put(&mut second, text::cat3("   ", label, " ").as_str(), colored(Color::Dim));
    put(
        &mut second,
        text::cat2("累计 ", fmt_bytes(total).as_str()).as_str(),
        colored(Color::Dim),
    );
    assert(line(second@) =~= rate_spans(arrow@, label@, bps, total)[1]);
    let mut all = no_lines();
    put_line(&mut all, first);
    put_line(&mut all, second);
    assert(lines(all@) =~= rate_spans(arrow@, label@, bps, total));
    all
}

/// The last `width` samples of a history, oldest first.
pub fn recent(hist: &VecDeque<u64>, width: usize) -> (r: Vec<u64>)
    ensures
        r@ == hist@.skip(
            if hist@.len() >= width {
                hist@.len() - width
            } else {
                0
            },
        ),
{
    let n: usize = hist.len();
    let start: usize = if n >= width {
        n - width
    } else {
        0
    };
    let mut out: Vec<u64> = Vec::new();
    let mut i: usize = start;
    assert(out@ =~= hist@.subrange(start as int, i as int));
    while i < n
        invariant
            start <= i <= n,
            n == hist@.len(),
            out@ == hist@.subrange(start as int, i as int),
        decreases n - i,
    {
        out.push(hist[i]);
        i = i + 1;
        assert(out@ =~= hist@.subrange(start as int, i as int));
    }
    assert(hist@.subrange(start as int, i as int) =~= hist@.skip(start as int));
    out
}

/// The log panel.
#[derive(Debug)]
pub struct LogPanel {
    pub title: String,
    /// Where the log file lies.
    pub bottom: Option<Vec<Span>>,
    pub border: Color,
    pub lines: Vec<Vec<Span>>,
}

/// The color of a log line.
pub open spec fn level_color(level: Level) -> Color {
    match level {
        Level::Info => Color::Reset,
        Level::Warn => Color::Warn,
        Level::Error => Color::Bad,
    }
}

/// A log line.
pub open spec fn log_spans(l: model::LineView) -> Seq<SpanView> {
    seq![
        styled(" "@ + l.time + " "@, fg(Color::Dim)),
        styled(l.msg, fg(level_color(l.level))),
    ]
}

/// Log lines.
pub open spec fn log_rows(v: Seq<model::LineView>) -> Seq<Seq<SpanView>> {
    v.map_values(|l: model::LineView| log_spans(l))
}

/// The title of the log panel.
pub open spec fn log_title(log: LogView, focused: bool) -> Seq<char> {
    if focused {
        " 日志 "@ + "[滚动 ↑"@ + text::dec(log.up) + "] "@
    } else {
        " 日志 "@
    }
}

fn log_line(l: &LogLine) -> (r: Vec<Span>)
    ensures
        line(r@) == log_spans(l@),
{
    let color = match l.level {
        Level::Info => Color::Reset,
        Level::Warn => Color::Warn,
        Level::Error => Color::Bad,
    };
    let mut row = empty_line();
    put(&mut row, text::cat3(" ", l.time.as_str(), " ").as_str(), colored(Color::Dim));
    put(&mut row, l.msg.as_str(), colored(color));
    assert(line(row@) =~= log_spans(l@));
    row
}

/// The log panel with `rows` rows.
pub fn log_panel(log: &LogBuffer, focused: bool, path: Option<&str>, rows: usize) -> (r: LogPanel)
    ensures
        r.title@ == log_title(log@, focused),
        match (r.bottom, path) {
            (Some(l), Some(p)) => line(l@) == one(" "@ + p@ + " "@, fg(Color::Dim)),
            (None, None) => true,
            _ => false,
        },
        r.border == (if focused {
            Color::Accent
        } else {
            Color::Dim
        }),
        lines(r.lines@) == log_rows(log@.shown(rows as nat)),
{
    let mut title = " 日志 ".to_owned();
    if focused {
        title.append("[滚动 ↑");
        title.append(text::decimal(log.scroll_up() as u64).as_str());
        title.append("] ");
    }
    let shown = log.visible(rows);
    let ghost views = model::line_views(shown@);
    let ghost all = log_rows(views);
    let mut out = no_lines();
    let mut i: usize = 0;
    assert(lines(out@) =~= all.take(0));
    while i < shown.len()
        invariant
            views == model::line_views(shown@),
            all == log_rows(views),
            i <= shown@.len(),
            lines(out@) == all.take(i as int),
        decreases shown@.len() - i,
    {
        put_line(&mut out, log_line(shown[i]));
        assert(all[i as int] == log_spans(views[i as int]));
        assert(all.take(i + 1) =~= all.take(i as int).push(all[i as int]));
        i = i + 1;
    }
    assert(all.take(i as int) =~= all);
    let bottom = match path {
        Some(p) => Some(only(text::cat3(" ", p, " ").as_str(), colored(Color::Dim))),
        None => None,
    };
    let border = if focused {
        Color::Accent
    } else {
        Color::Dim
    };
    LogPanel { title, bottom, border, lines: out }
}

/// The keys that the help explains.
pub open spec fn help_keys(screen: ScreenView) -> Seq<(&'static str, &'static str)> {
    if screen is Onboarding {
        seq![("↑ / ↓", "选择角色"), ("Enter", "确认并保存为默认模式"), ("q / Esc", "退出")]
    } else {
        seq![
            ("q / Ctrl-C", "退出（先清理路由、DNS 与 TUN）"),
            ("m", "切换宿主机 / 客机，并保存为默认"),
            ("l", "进入日志滚动；↑↓ PgUp PgDn End，Esc 退出"),
            ("?", "显示 / 关闭本帮助"),
        ]
    }
}

/// A text filled up with spaces to a width.
pub open spec fn padded(t: Seq<char>, width: nat) -> Seq<char> {
    t + repeated(
        ' ',
        if t.len() < width {
            (width - t.len()) as nat
        } else {
            0
        },
    )
}

/// A key and what it does.
pub open spec fn help_key_spans(p: (&str, &str)) -> Seq<SpanView> {
    seq![styled(" "@ + padded(p.0@, 12), strong(Color::Accent)), raw(p.1@)]
}

/// The keys and what they do.
pub open spec fn help_key_rows(keys: Seq<(&str, &str)>) -> Seq<Seq<SpanView>> {
    keys.map_values(|p: (&str, &str)| help_key_spans(p))
}

/// The help.
pub open spec fn help_spans(app: AppView) -> Seq<Seq<SpanView>> {
    let rows = help_key_rows(help_keys(app.screen)).push(one(""@, plain())).push(
        one(" 终端关闭（SIGHUP）、SIGTERM 同样会触发完整清理。"@, fg(Color::Dim)),
    ).push(one(" 配置："@ + app.config_path, fg(Color::Dim)));
    match app.log_path {
        Some(p) => rows.push(one(" 日志："@ + p, fg(Color::Dim))),
        None => rows,
    }
}

fn key_rows(keys: &[(&str, &str)]) -> (r: Vec<Vec<Span>>)
    ensures
        lines(r@) == help_key_rows(keys@),
{
    let ghost all = help_key_rows(keys@);
    let mut out = no_lines();
    let mut i: usize = 0;
    assert(lines(out@) =~= all.take(0));
    while i < keys.len()
        invariant
            all == help_key_rows(keys@),
            i <= keys@.len(),
            lines(out@) == all.take(i as int),
        decreases keys@.len() - i,
    {
        let (k, d) = keys[i];
        let n: usize = count(k);
        let mut key = k.to_owned();
        fill(
            &mut key,
            ' ',
            if n < 12 {
                12 - n
            } else {
                0
            },
        );
        let mut row = empty_line();
        put(&mut row, text::cat2(" ", key.as_str()).as_str(), strongly(Color::Accent));
        put(&mut row, d, plainly());
        assert(line(row@) =~= all[i as int]);
        put_line(&mut out, row);
        assert(all.take(i + 1) =~= all.take(i as int).push(all[i as int]));
        i = i + 1;
    }
    assert(all.take(i as int) =~= all);
    out
}

/// The help.
pub fn help(app: &App) -> (r: Vec<Vec<Span>>)
    ensures
        lines(r@) == help_spans(app@),
{
    let mut out = match &app.screen {
        Screen::Onboarding { .. } => {
            let keys: [(&str, &str); 3] = [
                ("↑ / ↓", "选择角色"),
                ("Enter", "确认并保存为默认模式"),
                ("q / Esc", "退出"),
            ];
            assert(keys@ =~= help_keys(app@.screen));
            key_rows(keys.as_slice())
        },
        _ => {
            let keys: [(&str, &str); 4] = [
                ("q / Ctrl-C", "退出（先清理路由、DNS 与 TUN）"),
                ("m", "切换宿主机 / 客机，并保存为默认"),
                ("l", "进入日志滚动；↑↓ PgUp PgDn End，Esc 退出"),
                ("?", "显示 / 关闭本帮助"),
            ];
            assert(keys@ =~= help_keys(app@.screen));
            key_rows(keys.as_slice())
        },
    };
    put_line(&mut out, only("", plainly()));
    put_line(
        &mut out,
        only(" 终端关闭（SIGHUP）、SIGTERM 同样会触发完整清理。", colored(Color::Dim)),
    );
    put_line(
        &mut out,
        only(
            text::cat2(" 配置：", app.config_path.as_str()).as_str(),
            colored(Color::Dim),
        ),
    );
    if let Some(p) = &app.log_path {
        put_line(
            &mut out,
            only(text::cat2(" 日志：", p.as_str()).as_str(), colored(Color::Dim)),
        );
    }
    out
}

// What the screens show.

/// The color of a guest tells how it is: an error before all, then connected,
/// then disconnected, and otherwise busy.
pub proof fn the_color_tells_the_state(m: GuestModelView)
    ensures
        state_color(m) == Color::Bad <==> m.fatal is Some,
        state_color(m) == Color::Good <==> m.fatal is None && m.state is Connected,
        state_color(m) == Color::Warn <==> m.fatal is None && m.state is Disconnected,
        state_color(m) == Color::Accent <==> m.fatal is None && model::state_busy(m.state),
{
}

/// The status of a guest is its error, or else its state with what it is about;
/// what is busy turns.
pub proof fn the_status_shows_the_state(app: AppView, m: GuestModelView)
    ensures
        ({
            let s = guest_status_spans(app, m);
            &&& s.len() >= 4
            &&& s[3].style == strong(state_color(m))
            &&& m.fatal matches Some(e) ==> s.len() == 5 && s[4].content == ContentView::Text(
                "  "@ + e,
            )
            &&& m.fatal is None ==> s[3].content == ContentView::Text(model::state_label(m.state))
            &&& m.fatal is None ==> (model::state_detail(m.state) matches Some(d) ==> s.len() == 5
                && s[4].content == ContentView::Text("  "@ + d))
            &&& m.fatal is None && model::state_detail(m.state) is None ==> s.len() == 4
            &&& s[1].content == ContentView::Text(
                if m.fatal is None && model::state_busy(m.state) && app.pending
                    == Pending::Nothing {
                    tui::spinner_frame(app.ticks as nat % 10)
                } else {
                    "●"@
                },
            )
        }),
{
}

/// Every interface has its row, with its name, its kind, whether it is ready,
/// and its address; without any there is a row that says so.
pub proof fn interfaces_have_their_rows(list: Seq<LinkInterface>, i: int)
    ensures
        list.len() == 0 ==> interface_rows(list).len() == 1,
        list.len() > 0 ==> interface_rows(list).len() == list.len(),
        0 <= i < list.len() ==> {
            let row = interface_rows(list)[i];
            &&& row.len() == 4
            &&& row[0].content == ContentView::Text(list[i].name@)
            &&& row[1].content == ContentView::Text(model::kind_label(list[i].kind))
            &&& row[2].content == ContentView::Text(
                if list[i].is_up && list[i].link_local_v6 is Some {
                    "是"@
                } else {
                    "否"@
                },
            )
            &&& list[i].link_local_v6 matches Some(a) ==> row[3].content == ContentView::Text(
                crate::net::ipv6_text(a),
            )
        },
{
}

/// Keys are padded to the widest of them, and each stands before its value.
pub proof fn values_line_up(pairs: Seq<(Seq<char>, Seq<char>)>, i: int)
    requires
        0 <= i < pairs.len(),
    ensures
        kv_spans(pairs).len() == pairs.len(),
        kv_spans(pairs)[i].len() == 2,
        kv_spans(pairs)[i][1].content == ContentView::Text(pairs[i].1),
        kv_spans(pairs)[i][0].content matches ContentView::Text(t) && t.len() == key_width(pairs)
            + 2 && text::holds(t, pairs[i].0),
        pairs[i].0.len() <= key_width(pairs),
        exists|k: int| 0 <= k < pairs.len() && (#[trigger] pairs[k]).0.len() == key_width(pairs),
{
    reveal_strlit(" ");
    no_key_is_wider(pairs, i);
    let key = pairs[i].0;
    let pad = repeated('　', (key_width(pairs) - key.len()) as nat);
    text::an_inner_text_is_held(" "@, key, pad + " "@);
    assert(" "@ + key + (pad + " "@) =~= " "@ + key + pad + " "@);
    some_key_is_as_wide(pairs);
}

proof fn some_key_is_as_wide(pairs: Seq<(Seq<char>, Seq<char>)>)
    requires
        pairs.len() > 0,
    ensures
        exists|k: int| 0 <= k < pairs.len() && (#[trigger] pairs[k]).0.len() == key_width(pairs),
    decreases pairs.len(),
{
    let front = pairs.drop_last();
    let n = pairs.len() - 1;
    if pairs.last().0.len() > key_width(front) || front.len() == 0 {
        assert(pairs[n] == pairs.last());
    } else {
        some_key_is_as_wide(front);
        let k = choose|k: int|
            0 <= k < front.len() && (#[trigger] front[k]).0.len() == key_width(front);
        assert(pairs[k] == front[k]);
    }
}

/// A guest that is connected shows its host, its tunnel and for how long; one
/// that is not shows how it is configured, and no tunnel.
pub proof fn a_connection_is_shown(
    summary: Seq<(Seq<char>, Seq<char>)>,
    m: GuestModelView,
    now: u64,
    rates: Seq<char>,
)
    ensures
        m.state matches GuestState::Connected { host, host_name, tun, config, since } ==> {
            let p = connection_pairs(summary, m, now, rates);
            &&& p.len() >= 6
            &&& p[0].1 == host_name@ + "  "@ + host.spec_text()
            &&& p[1].1 == tun@
            &&& p[2].1 == config.guest_ip.spec_text() + "/"@ + text::dec(config.prefix_len as nat)
            &&& p[3].1 == config.gateway_ip.spec_text() + " / "@ + config.dns.spec_text()
            &&& p[4].1 == text::dec(config.mtu as nat)
            &&& p[5].1 == units::duration_text(model::seconds_between(since, now))
            &&& m.link_speed is Some ==> p.len() > 6 && p[6].1 == rates
        },
        !(m.state is Connected) ==> {
            let p = connection_pairs(summary, m, now, rates);
            &&& p.len() == summary.len() + 2
            &&& p.take(summary.len() as int) == summary
            &&& p[summary.len() as int].1 == "-"@
            &&& p.last().1 == "-"@
        },
{
    let p = connection_pairs(summary, m, now, rates);
    if !(m.state is Connected) {
        assert(p.take(summary.len() as int) =~= summary);
    }
}

/// Of the summary the routes and the name resolution are kept, in order.
pub proof fn what_is_kept_of_a_summary(
    summary: Seq<(Seq<char>, Seq<char>)>,
    p: (Seq<char>, Seq<char>),
)
    ensures
        kept(Seq::empty()).len() == 0,
        p.0 == "路由"@ || p.0 == "系统 DNS"@ ==> kept(summary.push(p)) == kept(summary).push(p),
        p.0 != "路由"@ && p.0 != "系统 DNS"@ ==> kept(summary.push(p)) == kept(summary),
{
    assert(summary.push(p).drop_last() =~= summary);
}

/// A host shows its error, or where it listens, or that it is starting.
pub proof fn a_host_shows_where_it_listens(app: AppView, m: HostModelView)
    ensures
        host_state(m).0 == Color::Bad <==> m.fatal is Some,
        host_state(m).0 == Color::Good <==> m.fatal is None && m.listening is Some,
        m.fatal matches Some(e) ==> text::holds(host_state(m).1, e),
        m.fatal is None ==> (m.listening matches Some(a) ==> text::holds(
            host_state(m).1,
            a.spec_text(),
        )),
        host_state_spans(app, m)[3].content == ContentView::Text(host_state(m).1),
        host_state_spans(app, m)[4].content == ContentView::Text("   主机名 "@ + m.host_name),
{
    let none = Seq::<char>::empty();
    if let Some(e) = m.fatal {
        text::an_inner_text_is_held("运行出错："@, e, none);
        assert("运行出错："@ + e + none =~= "运行出错："@ + e);
    } else if let Some(a) = m.listening {
        let t = a.spec_text();
        text::an_inner_text_is_held("监听 "@, t, none);
        assert("监听 "@ + t + none =~= "监听 "@ + t);
    }
}

/// A host shows every link, with whether it is connected.
pub proof fn a_host_shows_its_links(list: Seq<LinkInterface>, l: LinkInterface)
    ensures
        host_links_spans(Seq::empty()).len() == 0,
        host_links_spans(seq![l]) == host_link_spans(l),
        list.len() > 0 ==> host_links_spans(list.push(l)) == host_links_spans(list).push(raw("  "@))
            + host_link_spans(l),
        host_link_spans(l)[0].content == ContentView::Text(l.name@),
        host_link_spans(l)[0].style == (if l.is_up && l.link_local_v6 is Some {
            strong(Color::Good)
        } else {
            fg(Color::Dim)
        }),
        host_link_spans(l)[1].content == ContentView::Text(
            if l.is_up && l.link_local_v6 is Some {
                "("@ + "已连线"@ + ")"@
            } else {
                "("@ + "未连线"@ + ")"@
            },
        ),
{
    reveal_with_fuel(host_links_spans, 2);
    assert(list.push(l).drop_last() =~= list);
    assert(seq![l].drop_last() =~= Seq::<LinkInterface>::empty());
    assert(host_links_spans(seq![l]) =~= host_link_spans(l));
}

/// The links of a host are followed by its serial port, where it has one.
pub proof fn a_host_shows_its_serial_port(m: HostModelView)
    ensures
        m.serial_state matches Some((path, open)) ==> {
            let s = host_line_spans(m);
            &&& s.len() >= 2
            &&& s[s.len() - 2].content == ContentView::Text("串口 "@ + path)
            &&& s[s.len() - 1].content == ContentView::Text(
                if open {
                    "("@ + "已打开"@ + ")"@
                } else {
                    "("@ + "已关闭"@ + ")"@
                },
            )
        },
        m.serial_state is None && m.interfaces.len() > 0 ==> host_line_spans(m) == seq![
            styled(" 链路 "@, fg(Color::Dim)),
        ] + host_links_spans(m.interfaces),
        m.serial_state is None && m.interfaces.len() == 0 ==> host_line_spans(m).len() == 2,
{
}

/// A host with a guest shows who it is and for how long; one without shows why
/// the last one left.
pub proof fn a_host_shows_its_guest(m: HostModelView, now: u64, rates: Seq<char>)
    ensures
        m.guest matches Some(g) ==> {
            let p = guest_pairs(m, now, rates);
            &&& p.len() >= 5
            &&& p[1].1 == g.name@
            &&& p[2].1 == g.peer.spec_text()
            &&& p[3].1 == g.assigned_ip.spec_text()
            &&& p[4].1 == units::duration_text(model::seconds_between(g.connected_at, now))
            &&& m.link_speed is Some ==> p.len() == 6 && p[5].1 == rates
            &&& m.link_speed is None ==> p.len() == 5
        },
        m.guest is None ==> (m.last_disconnect matches Some(why) ==> guest_pairs(
            m,
            now,
            rates,
        ).len() == 2 && guest_pairs(m, now, rates)[1].1 == why),
        m.guest is None && m.last_disconnect is None ==> guest_pairs(m, now, rates).len() == 1,
{
}

/// Every flow has its row, with its protocol, its port, where it goes, and its
/// age.
pub proof fn flows_have_their_rows(flows: Seq<FlowInfo>, now: u64, i: int)
    requires
        0 <= i < flows.len(),
    ensures
        flow_rows(flows, now).len() == flows.len(),
        flow_rows(flows, now)[i].len() == 4,
        flow_rows(flows, now)[i][0].content == ContentView::Text(model::proto_text(flows[i].proto)),
        flow_rows(flows, now)[i][1].content == ContentView::Text(
            text::dec(flows[i].src.spec_port() as nat),
        ),
        flow_rows(flows, now)[i][2].content == ContentView::Text(flows[i].dst.spec_text()),
        flow_rows(flows, now)[i][3].content == ContentView::Text(
            units::duration_text(model::seconds_between(flows[i].opened_at, now)),
        ),
{
}

/// A line of the log is shown with its time, in the color of its level.
pub proof fn log_lines_are_shown(v: Seq<model::LineView>, i: int)
    requires
        0 <= i < v.len(),
    ensures
        log_rows(v).len() == v.len(),
        log_rows(v)[i].len() == 2,
        log_rows(v)[i][0].content == ContentView::Text(" "@ + v[i].time + " "@),
        log_rows(v)[i][1].content == ContentView::Text(v[i].msg),
        log_rows(v)[i][1].style == fg(
            match v[i].level {
                Level::Info => Color::Reset,
                Level::Warn => Color::Warn,
                Level::Error => Color::Bad,
            },
        ),
{
}

/// A rate is shown as it is, and with it how much it was in all.
pub proof fn rates_are_shown(arrow: Seq<char>, label: Seq<char>, bps: Rate, total: u64)
    ensures
        rate_spans(arrow, label, bps, total).len() == 2,
        rate_spans(arrow, label, bps, total)[0][1].content == ContentView::Rate(bps),
        rate_spans(arrow, label, bps, total)[1][1].content == ContentView::Text(
            "累计 "@ + units::bytes_text(total as nat),
        ),
{
}

/// The foot of the screen shows the notice where there is one, and else the
/// keys.
pub proof fn a_notice_goes_before_the_keys(app: AppView)
    ensures
        app.notice matches Some(n) ==> footer_spans(app).len() == 3 && footer_spans(app)[1].content
            == ContentView::Text(n),
        app.notice is None ==> footer_spans(app) == hint_spans(footer_keys(app.log_focus)).push(
            raw(" "@),
        ),
{
}

/// The help names the file of the configuration, and that of the log where
/// there is one.
pub proof fn the_help_names_the_files(app: AppView)
    ensures
        ({
            let h = help_spans(app);
            let n = help_keys(app.screen).len() as int;
            &&& h.len() == n + 3 + (if app.log_path is Some {
                1int
            } else {
                0
            })
            &&& h[n + 2][0].content == ContentView::Text(" 配置："@ + app.config_path)
            &&& app.log_path matches Some(p) ==> h[n + 3][0].content == ContentView::Text(
                " 日志："@ + p,
            )
        }),
{
}

/// The first role is the host, and the second the guest.
pub proof fn the_roles_are_in_order()
    ensures
        role_lines().len() == 2,
        role_lines()[0][0].content == ContentView::Text("宿主机（服务端）"@),
        role_lines()[1][0].content == ContentView::Text("客机"@),
{
}

/// The title of the flows counts them: those that are active, those that were
/// closed, and their bytes.
pub proof fn the_flows_are_counted(f: FlowsView)
    ensures
        text::holds(flows_title(f), text::dec(f.active.dom().len())),
        text::holds(flows_title(f), text::dec(f.closed_count as nat)),
        text::holds(flows_title(f), units::bytes_text(f.total())),
{
    let (a, b, c, d) = (" 活跃连接 "@, "   已关闭 "@, "   累计 "@, " "@);
    let (x, y) = (text::dec(f.active.dom().len()), text::dec(f.closed_count as nat));
    let z = units::bytes_text(f.total());
    let all = a + x + b + y + c + z + d;
    text::an_inner_text_is_held(a, x, b + y + c + z + d);
    assert(a + x + (b + y + c + z + d) =~= all);
    text::an_inner_text_is_held(a + x + b, y, c + z + d);
    assert(a + x + b + y + (c + z + d) =~= all);
    text::an_inner_text_is_held(a + x + b + y + c, z, d);
}

/// The title of the log says how far it was scrolled, while it is in focus.
pub proof fn the_log_says_how_far(log: LogView, focused: bool)
    ensures
        !focused ==> log_title(log, focused) == " 日志 "@,
        focused ==> text::holds(log_title(log, focused), text::dec(log.up)),
{
    let a = " 日志 "@ + "[滚动 ↑"@;
    text::an_inner_text_is_held(a, text::dec(log.up), "] "@);
}

/// The title of the program names its version and the screen.
pub proof fn the_title_names_the_version(version: Seq<char>, title: Seq<char>)
    ensures
        title_spans(version, title)[1].content == ContentView::Text("NetM v"@ + version),
        title_spans(version, title)[2].content == ContentView::Text(" · "@ + title + " "@),
{
}

/// A short text is padded to the width, and a longer one stays.
pub proof fn texts_are_padded(t: Seq<char>, width: nat)
    ensures
        padded(t, width).take(t.len() as int) == t,
        t.len() <= width ==> padded(t, width).len() == width,
        t.len() > width ==> padded(t, width) == t,
        forall|i: int| t.len() <= i < padded(t, width).len() ==> padded(t, width)[i] == ' ',
{
    assert(padded(t, width).take(t.len() as int) =~= t);
    if t.len() > width {
        assert(padded(t, width) =~= t);
    }
}

} // verus!
