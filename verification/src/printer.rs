//! The renderer: from a listing to the lines that a terminal shows.
//!
//! Nothing is written here; the lines are handed out with the stream that
//! each belongs on.

use vstd::prelude::*;
use crate::task::display::{
    listing, ListItem, ListItemKind, ListItemView, ListMessageLevel, ListMessageView, ListOutput,
    ListOutputView, ListRenderMode,
};
use crate::task::registry::TaskRegistry;
use crate::text::{concat, framed};

verus! {

pub const RESET: &'static str = "\x1b[0m";

pub const FG_CYAN: &'static str = "\x1b[36m";

pub const FG_BRIGHT_BLACK: &'static str = "\x1b[90m";

pub const FG_WHITE: &'static str = "\x1b[97m";

pub const BG_GROUP: &'static str = "\x1b[48;5;24m";

pub const FG_GROUP_DESC: &'static str = "\x1b[97m";

pub const ERASE_TO_END: &'static str = "\x1b[K";

/// Where a line is written.
#[derive(Debug, Clone, Copy, PartialEq, Eq, Structural)]
pub enum Stream {
    Stdout,
    Stderr,
}

/// One line to write.
#[derive(Debug)]
pub struct Line {
    pub stream: Stream,
    pub text: String,
}

/// What a `Line` holds, as plain text.
pub struct LineView {
    pub stream: Stream,
    pub text: Seq<char>,
}

impl View for Line {
    type V = LineView;

    open spec fn view(&self) -> LineView {
        LineView { stream: self.stream, text: self.text@ }
    }
}

impl DeepView for Line {
    type V = LineView;

    open spec fn deep_view(&self) -> LineView {
        self@
    }
}

/// A line for the standard output.
pub open spec fn info_line(text: Seq<char>) -> LineView {
    LineView { stream: Stream::Stdout, text }
}

/// `count` spaces.
pub open spec fn spaces(count: nat) -> Seq<char> {
    Seq::new(count, |i: int| ' ')
}

/// `text`, filled up with spaces on the right to `width` characters; `text`
/// itself where it is that wide already.
pub open spec fn padded(text: Seq<char>, width: nat) -> Seq<char> {
    if text.len() < width {
        text + spaces((width - text.len()) as nat)
    } else {
        text
    }
}

/// The line for a message: information goes to the standard output,
/// warnings and errors to the standard error.
pub open spec fn message_line(message: ListMessageView) -> LineView {
    LineView {
        stream: match message.level {
            ListMessageLevel::Info => Stream::Stdout,
            _ => Stream::Stderr,
        },
        text: message.text,
    }
}

/// The width of the widest name among the items of `items` at `depth`.
pub open spec fn name_width(items: Seq<ListItemView>, depth: nat) -> nat
    decreases items.len(),
{
    if items.len() == 0 {
        0
    } else {
        let rest = name_width(items.drop_last(), depth);
        if items.last().depth == depth && items.last().name.len() > rest {
            items.last().name.len()
        } else {
            rest
        }
    }
}

/// The width of the widest full name among the tasks of `items`.
pub open spec fn full_name_width(items: Seq<ListItemView>) -> nat
    decreases items.len(),
{
    if items.len() == 0 {
        0
    } else {
        let rest = full_name_width(items.drop_last());
        if items.last().kind == ListItemKind::Task && items.last().full_name.len() > rest {
            items.last().full_name.len()
        } else {
            rest
        }
    }
}

/// The uncoloured start of a tree line: two spaces for each level of depth,
/// `>` for a group or `-` for a task, a space, and the name filled up to
/// `width`.
pub open spec fn tree_base(item: ListItemView, width: nat) -> Seq<char> {
    spaces(2 * item.depth) + seq![
        match item.kind {
            ListItemKind::Group => '>',
            ListItemKind::Task => '-',
        },
        ' ',
    ] + padded(item.name, width)
}

/// What follows the name on a tree line: ` : ` and the description, where
/// there is one.
pub open spec fn tree_description(item: ListItemView) -> Option<Seq<char>> {
    match item.description {
        Some(description) => Some(" : "@ + description),
        None => None,
    }
}

/// A tree line in colour.
pub open spec fn colored_line(kind: ListItemKind, base: Seq<char>, desc: Option<Seq<char>>) -> Seq<
    char,
> {
    match kind {
        ListItemKind::Group => match desc {
            Some(desc) => BG_GROUP@ + FG_WHITE@ + base + FG_GROUP_DESC@ + desc + ERASE_TO_END@
                + RESET@,
            None => BG_GROUP@ + FG_WHITE@ + base + ERASE_TO_END@ + RESET@,
        },
        ListItemKind::Task => match desc {
            Some(desc) => FG_CYAN@ + base + RESET@ + FG_BRIGHT_BLACK@ + desc + RESET@,
            None => FG_CYAN@ + base + RESET@,
        },
    }
}

/// The tree line for `item`, its name filled up to `width`.
pub open spec fn tree_line(item: ListItemView, width: nat, use_color: bool) -> Seq<char> {
    let base = tree_base(item, width);
    if use_color {
        colored_line(item.kind, base, tree_description(item))
    } else {
        match tree_description(item) {
            Some(desc) => base + desc,
            None => base,
        }
    }
}

/// The tree lines for the first `count` of `items`; names are filled up to
/// the widest name that any of `items` has at the same depth.
pub open spec fn tree_lines(items: Seq<ListItemView>, count: nat, use_color: bool) -> Seq<
    LineView,
>
    decreases count,
{
    if count == 0 || count > items.len() {
        Seq::empty()
    } else {
        let item = items[count - 1];
        tree_lines(items, (count - 1) as nat, use_color).push(
            info_line(tree_line(item, name_width(items, item.depth), use_color)),
        )
    }
}

/// The flat line for the task `item`: its full name filled up to `width`,
/// then two spaces and the description, where there is one.
pub open spec fn flat_line(item: ListItemView, width: nat, use_color: bool) -> Seq<char> {
    let name = padded(item.full_name, width);
    match item.description {
        Some(desc) => if use_color {
            FG_CYAN@ + name + RESET@ + "  "@ + FG_BRIGHT_BLACK@ + desc + RESET@
        } else {
            name + "  "@ + desc
        },
        None => if use_color {
            FG_CYAN@ + name + RESET@
        } else {
            name
        },
    }
}

/// The flat lines for the tasks among the first `count` of `items`; full
/// names are filled up to the widest full name that any task of `items`
/// has. Groups get no line.
pub open spec fn flat_lines(items: Seq<ListItemView>, count: nat, use_color: bool) -> Seq<
    LineView,
>
    decreases count,
{
    if count == 0 || count > items.len() {
        Seq::empty()
    } else {
        let item = items[count - 1];
        let before = flat_lines(items, (count - 1) as nat, use_color);
        if item.kind == ListItemKind::Task {
            before.push(info_line(flat_line(item, full_name_width(items), use_color)))
        } else {
            before
        }
    }
}

/// The lines that show `output`: its messages first, then its items as
/// `mode` lays them out.
pub open spec fn printed(output: ListOutputView, mode: ListRenderMode, use_color: bool) -> Seq<
    LineView,
> {
    output.messages.map_values(|message: ListMessageView| message_line(message)) + match mode {
        ListRenderMode::Tree => tree_lines(output.items, output.items.len(), use_color),
        ListRenderMode::Flat => flat_lines(output.items, output.items.len(), use_color),
    }
}

/// `count` spaces.
fn blank(count: usize) -> (text: String)
    ensures
        text@ == spaces(count as nat),
{
    let mut text = String::new();
    let mut i: usize = 0;
    assert(text@ =~= spaces(0));
    while i < count
        invariant
            i <= count,
            text@ == spaces(i as nat),
        decreases count - i,
    {
        text.append(" ");
        proof {
            reveal_strlit(" ");
            assert(" "@ =~= seq![' ']);
            assert(spaces(i as nat) + seq![' '] =~= spaces((i + 1) as nat));
        }
        i += 1;
    }
    text
}

/// Two spaces for each of `depth` levels.
fn indent(depth: usize) -> (text: String)
    ensures
        text@ == spaces(2 * (depth as nat)),
{
    let mut text = String::new();
    let mut i: usize = 0;
    assert(text@ =~= spaces(0));
    while i < depth
        invariant
            i <= depth,
            text@ == spaces(2 * (i as nat)),
        decreases depth - i,
    {
        text.append("  ");
        proof {
            reveal_strlit("  ");
            assert("  "@ =~= seq![' ', ' ']);
            assert(spaces(2 * (i as nat)) + seq![' ', ' '] =~= spaces(2 * ((i + 1) as nat)));
        }
        i += 1;
    }
    text
}

/// `text` filled up with spaces on the right to `width` characters.
fn pad(text: &str, width: usize) -> (out: String)
    ensures
        out@ == padded(text@, width as nat),
{
    let length = text.unicode_len();
    if length < width {
        let fill = blank(width - length);
        concat(text, fill.as_str())
    } else {
        text.to_owned()
    }
}

/// The width of the widest name among the items of `items` at `depth`.
fn widest_name(items: &Vec<ListItem>, depth: usize) -> (width: usize)
    ensures
        width == name_width(items.deep_view(), depth as nat),
{
    let ghost all = items.deep_view();
    let mut width: usize = 0;
    let mut i: usize = 0;
    assert(all.subrange(0, 0) =~= Seq::<ListItemView>::empty());
    while i < items.len()
        invariant
            i <= items.len(),
            all == items.deep_view(),
            width == name_width(all.subrange(0, i as int), depth as nat),
        decreases items.len() - i,
    {
        proof {
            let next = all.subrange(0, i + 1);
            assert(next.drop_last() =~= all.subrange(0, i as int));
            assert(next.last() == items[i as int]@);
        }
        if items[i].depth == depth {
            let length = items[i].name.as_str().unicode_len();
            if length > width {
                width = length;
            }
        }
        i += 1;
    }
    assert(all.subrange(0, i as int) =~= all);
    width
}

/// The width of the widest full name among the tasks of `items`.
fn widest_full_name(items: &Vec<ListItem>) -> (width: usize)
    ensures
        width == full_name_width(items.deep_view()),
{
    let ghost all = items.deep_view();
    let mut width: usize = 0;
    let mut i: usize = 0;
    assert(all.subrange(0, 0) =~= Seq::<ListItemView>::empty());
    while i < items.len()
        invariant
            i <= items.len(),
            all == items.deep_view(),
            width == full_name_width(all.subrange(0, i as int)),
        decreases items.len() - i,
    {
        proof {
            let next = all.subrange(0, i + 1);
            assert(next.drop_last() =~= all.subrange(0, i as int));
            assert(next.last() == items[i as int]@);
        }
        if items[i].kind == ListItemKind::Task {
            let length = items[i].full_name.as_str().unicode_len();
            if length > width {
                width = length;
            }
        }
        i += 1;
    }
    assert(all.subrange(0, i as int) =~= all);
    width
}

/// A tree line in colour.
pub fn format_colored_line(kind: ListItemKind, base: &str, desc: Option<&str>) -> (text: String)
    ensures
        text@ == colored_line(kind, base@, desc.deep_view()),
{
    match kind {
        ListItemKind::Group => {
            let mut text = framed(BG_GROUP, FG_WHITE, base);
            match desc {
                Some(desc) => {
                    text.append(FG_GROUP_DESC);
                    text.append(desc);
                },
                None => {},
            }
            text.append(ERASE_TO_END);
            text.append(RESET);
            text
        },
        ListItemKind::Task => {
            let mut text = framed(FG_CYAN, base, RESET);
            match desc {
                Some(desc) => {
                    text.append(FG_BRIGHT_BLACK);
                    text.append(desc);
                    text.append(RESET);
                },
                None => {},
            }
            text
        },
    }
}

/// The tree line for `item`, its name filled up to `width`.
fn format_tree_line(item: &ListItem, width: usize, use_color: bool) -> (text: String)
    ensures
        text@ == tree_line(item@, width as nat, use_color),
{
    let mut base = indent(item.depth);
    match item.kind {
        ListItemKind::Group => {
            base.append("> ");
            proof {
                reveal_strlit("> ");
                assert("> "@ =~= seq!['>', ' ']);
            }
        },
        ListItemKind::Task => {
            base.append("- ");
            proof {
                reveal_strlit("- ");
                assert("- "@ =~= seq!['-', ' ']);
            }
        },
    }
    let name = pad(item.name.as_str(), width);
    base.append(name.as_str());
    let desc: Option<String> = match &item.description {
        Some(description) => Some(concat(" : ", description.as_str())),
        None => None,
    };
    if use_color {
        match &desc {
            Some(desc) => format_colored_line(item.kind, base.as_str(), Some(desc.as_str())),
            None => format_colored_line(item.kind, base.as_str(), None),
        }
    } else {
        match &desc {
            Some(desc) => concat(base.as_str(), desc.as_str()),
            None => base,
        }
    }
}

/// The flat line for the task `item`, its full name filled up to `width`.
fn format_flat_line(item: &ListItem, width: usize, use_color: bool) -> (text: String)
    ensures
        text@ == flat_line(item@, width as nat, use_color),
{
    let name = pad(item.full_name.as_str(), width);
    match &item.description {
        Some(desc) => {
            if use_color {
                let mut text = framed(FG_CYAN, name.as_str(), RESET);
                text.append("  ");
                text.append(FG_BRIGHT_BLACK);
                text.append(desc.as_str());
                text.append(RESET);
                text
            } else {
                framed(name.as_str(), "  ", desc.as_str())
            }
        },
        None => {
            if use_color {
                framed(FG_CYAN, name.as_str(), RESET)
            } else {
                name
            }
        },
    }
}

/// Appends the tree lines for `output`.
fn print_tree(output: &ListOutput, use_color: bool, lines: &mut Vec<Line>)
    ensures
        final(lines).deep_view() == old(lines).deep_view() + tree_lines(
            output@.items,
            output@.items.len(),
            use_color,
        ),
{
    let ghost items = output@.items;
    let ghost head = lines.deep_view();
    let mut i: usize = 0;
    assert(head + tree_lines(items, 0, use_color) =~= head);
    while i < output.items.len()
        invariant
            i <= output.items.len(),
            items == output@.items,
            lines.deep_view() == head + tree_lines(items, i as nat, use_color),
        decreases output.items.len() - i,
    {
        let item = &output.items[i];
        let ghost before = lines.deep_view();
        let width = widest_name(&output.items, item.depth);
        let line = Line { stream: Stream::Stdout, text: format_tree_line(item, width, use_color) };
        lines.push(line);
        assert(lines.deep_view() =~= before.push(line@));
        assert(lines.deep_view() =~= head + tree_lines(items, (i + 1) as nat, use_color));
        i += 1;
    }
}

/// Appends the flat lines for `output`.
fn print_flat(output: &ListOutput, use_color: bool, lines: &mut Vec<Line>)
    ensures
        final(lines).deep_view() == old(lines).deep_view() + flat_lines(
            output@.items,
            output@.items.len(),
            use_color,
        ),
{
    let ghost items = output@.items;
    let ghost head = lines.deep_view();
    let width = widest_full_name(&output.items);
    let mut i: usize = 0;
    assert(head + flat_lines(items, 0, use_color) =~= head);
    while i < output.items.len()
        invariant
            i <= output.items.len(),
            items == output@.items,
            width == full_name_width(items),
            lines.deep_view() == head + flat_lines(items, i as nat, use_color),
        decreases output.items.len() - i,
    {
        let item = &output.items[i];
        let ghost before = lines.deep_view();
        if item.kind == ListItemKind::Task {
            let line = Line { stream: Stream::Stdout, text: format_flat_line(item, width, use_color) };
            lines.push(line);
            assert(lines.deep_view() =~= before.push(line@));
        }
        assert(lines.deep_view() =~= head + flat_lines(items, (i + 1) as nat, use_color));
        i += 1;
    }
}

/// The lines that show `output`: see `printed`. `use_color` tells whether
/// the terminal takes colour.
pub fn print_list(output: &ListOutput, mode: ListRenderMode, use_color: bool) -> (lines: Vec<Line>)
    ensures
        lines.deep_view() == printed(output@, mode, use_color),
{
    let mut lines: Vec<Line> = Vec::new();
    let ghost messages = output@.messages;
    let mut i: usize = 0;
    assert(lines.deep_view() =~= messages.subrange(0, 0).map_values(
        |message: ListMessageView| message_line(message),
    ));
    while i < output.messages.len()
        invariant
            i <= output.messages.len(),
            messages == output@.messages,
            lines.deep_view() == messages.subrange(0, i as int).map_values(
                |message: ListMessageView| message_line(message),
            ),
        decreases output.messages.len() - i,
    {
        let message = &output.messages[i];
        let stream = match message.level {
            ListMessageLevel::Info => Stream::Stdout,
            ListMessageLevel::Warn => Stream::Stderr,
            ListMessageLevel::Error => Stream::Stderr,
        };
        let ghost before = lines.deep_view();
        let line = Line { stream, text: message.text.clone() };
        lines.push(line);
        proof {
            assert(lines.deep_view() =~= before.push(line@));
            let next = messages.subrange(0, i + 1);
            assert(next =~= messages.subrange(0, i as int).push(message@));
            assert(lines.deep_view() =~= next.map_values(
                |message: ListMessageView| message_line(message),
            ));
        }
        i += 1;
    }
    assert(messages.subrange(0, i as int) =~= messages);
    match mode {
        ListRenderMode::Tree => print_tree(output, use_color, &mut lines),
        ListRenderMode::Flat => print_flat(output, use_color, &mut lines),
    }
    lines
}

impl TaskRegistry {
    /// The lines that list the registry, or the group `group`: the listing
    /// of `collect_list_output`, shown as `print_list` shows it.
    pub fn list(&self, group: Option<&str>, mode: ListRenderMode, use_color: bool) -> (lines: Vec<
        Line,
    >)
        ensures
            lines.deep_view() == printed(listing(self@, group.deep_view()), mode, use_color),
    {
        let output = self.collect_list_output(group);
        print_list(&output, mode, use_color)
    }
}

} // verus!
