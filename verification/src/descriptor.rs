//! Reading monitors from the display server's report and from a bezel list.
//!
//! A report is a text of lines. A line that holds the word `connected` between
//! two spaces describes a monitor: its fields are separated by single spaces,
//! the first is the monitor's name, the third or else the fourth is the mode
//! `<width>x<height>+<x>+<y>`, the last is `<height>mm` and the last but two is
//! `<width>mm`. Every other line is passed over.
//!
//! A bezel list holds one entry per monitor, separated by `;`, in the order
//! of the monitors. An entry is `<bezel_x>,<bezel_y>`. A monitor without an
//! entry, or with an entry of fewer than two fields, has no bezel.

use crate::error::DomainError;
use crate::monitor::{models, Monitor, MonitorModel};
use crate::text::{
    chars_of, contains, contains_in, find_char, first_index, parse_number, parse_u32, split,
    split_span, Span,
};
use vstd::prelude::*;

verus! {

/// The word that marks a connected monitor's line, with the spaces around it.
pub open spec fn connected_marker() -> Seq<char> {
    seq![' ', 'c', 'o', 'n', 'n', 'e', 'c', 't', 'e', 'd', ' ']
}

/// The line describes a connected monitor.
pub open spec fn is_connected(line: Seq<char>) -> bool {
    contains(line, connected_marker())
}

/// The number of a field `<number>mm`; `None` for a field of another form.
pub open spec fn parse_millimetres(field: Seq<char>) -> Option<u32> {
    let n = field.len() as int;
    if n >= 2 && field[n - 2] == 'm' && field[n - 1] == 'm' {
        parse_number(field.subrange(0, n - 2))
    } else {
        None
    }
}

/// The two numbers that `s` begins with, separated by `sep`; what follows a
/// further `sep` is not read. `None` where `s` has no `sep` or one of the two
/// fields is not a number.
pub open spec fn parse_pair(s: Seq<char>, sep: char) -> Option<(u32, u32)> {
    let parts = split(s, sep);
    if parts.len() >= 2 {
        match (parse_number(parts[0]), parse_number(parts[1])) {
            (Some(a), Some(b)) => Some((a, b)),
            _ => None,
        }
    } else {
        None
    }
}

/// The field holds a `+`.
pub open spec fn has_plus(field: Seq<char>) -> bool {
    first_index(field, '+') < field.len()
}

/// The mode among a line's fields: the third if it holds a `+`, else the
/// fourth if there is one and it holds a `+`.
pub open spec fn mode_field(fields: Seq<Seq<char>>) -> Option<Seq<char>> {
    if fields.len() > 2 && has_plus(fields[2]) {
        Some(fields[2])
    } else if fields.len() > 3 && has_plus(fields[3]) {
        Some(fields[3])
    } else {
        None
    }
}

/// Resolution and position as a mode field gives them.
pub struct Mode {
    pub pixel_width: u32,
    pub pixel_height: u32,
    pub x: u32,
    pub y: u32,
}

/// Reads `<width>x<height>+<x>+<y>`.
pub open spec fn parse_mode(field: Seq<char>) -> Option<Mode> {
    let cut = first_index(field, '+');
    if 0 <= cut < field.len() {
        match (
            parse_pair(field.subrange(0, cut), 'x'),
            parse_pair(field.subrange(cut + 1, field.len() as int), '+'),
        ) {
            (Some(extent), Some(origin)) => Some(
                Mode { pixel_width: extent.0, pixel_height: extent.1, x: origin.0, y: origin.1 },
            ),
            _ => None,
        }
    } else {
        None
    }
}

/// The monitor that a connected line describes, without bezel; `None` where
/// the line cannot be read.
pub open spec fn parse_descriptor(line: Seq<char>) -> Option<MonitorModel> {
    let fields = split(line, ' ');
    let n = fields.len() as int;
    if n < 3 {
        None
    } else {
        match (parse_millimetres(fields[n - 1]), parse_millimetres(fields[n - 3]), mode_field(fields)) {
            (Some(physical_height), Some(physical_width), Some(field)) => match parse_mode(field) {
                Some(mode) => Some(
                    MonitorModel {
                        name: fields[0],
                        pixel_width: mode.pixel_width,
                        pixel_height: mode.pixel_height,
                        physical_width,
                        physical_height,
                        x: mode.x,
                        y: mode.y,
                        bezel_x: 0,
                        bezel_y: 0,
                    },
                ),
                None => None,
            },
            _ => None,
        }
    }
}

/// The bezel that one entry of a bezel list gives.
pub open spec fn parse_bezel(entry: Seq<char>) -> Result<(u32, u32), DomainError> {
    let parts = split(entry, ',');
    if parts.len() < 2 {
        Ok((0u32, 0u32))
    } else {
        match (parse_number(parts[0]), parse_number(parts[1])) {
            (Some(a), Some(b)) => Ok((a, b)),
            _ => Err(DomainError::MalformedBezelSpec),
        }
    }
}

/// The bezel of the monitor at `position`, counted from 0, in a bezel list
/// with the given entries.
pub open spec fn bezel_at(entries: Seq<Seq<char>>, position: int) -> Result<
    (u32, u32),
    DomainError,
> {
    if 0 <= position < entries.len() {
        parse_bezel(entries[position])
    } else {
        Ok((0u32, 0u32))
    }
}

/// The monitor that a connected line describes, with the bezel that the list
/// gives to the monitor at `position`. The line is read first, then the
/// bezel, and the monitor is checked last.
pub open spec fn parse_monitor(line: Seq<char>, entries: Seq<Seq<char>>, position: int) -> Result<
    MonitorModel,
    DomainError,
> {
    match parse_descriptor(line) {
        None => Err(DomainError::MalformedDescriptor),
        Some(bare) => match bezel_at(entries, position) {
            Err(e) => Err(e),
            Ok(bezel) => {
                let monitor = MonitorModel {
                    name: bare.name,
                    pixel_width: bare.pixel_width,
                    pixel_height: bare.pixel_height,
                    physical_width: bare.physical_width,
                    physical_height: bare.physical_height,
                    x: bare.x,
                    y: bare.y,
                    bezel_x: bezel.0,
                    bezel_y: bezel.1,
                };
                if monitor.valid() {
                    Ok(monitor)
                } else {
                    Err(DomainError::InvalidMonitor)
                }
            },
        },
    }
}

/// `found` in front of what the rest of the lines give.
pub open spec fn prepend(found: Seq<MonitorModel>, rest: Result<Seq<MonitorModel>, DomainError>)
    -> Result<Seq<MonitorModel>, DomainError> {
    match rest {
        Ok(more) => Ok(found + more),
        Err(e) => Err(e),
    }
}

/// The monitors of the connected lines among `lines`, in order, where
/// `position` monitors were found before them; or the failure of the first
/// connected line that has one.
pub open spec fn parse_lines(lines: Seq<Seq<char>>, entries: Seq<Seq<char>>, position: int)
    -> Result<Seq<MonitorModel>, DomainError>
    decreases lines.len(),
{
    if lines.len() == 0 {
        Ok(Seq::empty())
    } else if !is_connected(lines[0]) {
        parse_lines(lines.drop_first(), entries, position)
    } else {
        match parse_monitor(lines[0], entries, position) {
            Err(e) => Err(e),
            Ok(monitor) => prepend(
                seq![monitor],
                parse_lines(lines.drop_first(), entries, position + 1),
            ),
        }
    }
}

/// The monitors that a report describes, with the bezels of a bezel list.
pub open spec fn parse_report(report: Seq<char>, bezels: Seq<char>) -> Result<
    Seq<MonitorModel>,
    DomainError,
> {
    parse_lines(split(report, '\n'), split(bezels, ';'), 0)
}

/// What a connected line gives, as read from a buffer: the numbers, and where
/// the name stands.
struct Fields {
    name: Span,
    pixel_width: u32,
    pixel_height: u32,
    physical_width: u32,
    physical_height: u32,
    x: u32,
    y: u32,
}

impl Fields {
    spec fn model(self, text: Seq<char>) -> MonitorModel {
        MonitorModel {
            name: self.name.of(text),
            pixel_width: self.pixel_width,
            pixel_height: self.pixel_height,
            physical_width: self.physical_width,
            physical_height: self.physical_height,
            x: self.x,
            y: self.y,
            bezel_x: 0,
            bezel_y: 0,
        }
    }
}

fn marker_chars() -> (marker: Vec<char>)
    ensures
        marker@ == connected_marker(),
{
    let mut marker: Vec<char> = Vec::new();
    marker.push(' ');
    marker.push('c');
    marker.push('o');
    marker.push('n');
    marker.push('n');
    marker.push('e');
    marker.push('c');
    marker.push('t');
    marker.push('e');
    marker.push('d');
    marker.push(' ');
    proof {
        assert(marker@ =~= connected_marker());
    }
    marker
}

fn read_millimetres(v: &Vec<char>, field: Span) -> (out: Option<u32>)
    requires
        field.within(v@),
    ensures
        out == parse_millimetres(field.of(v@)),
{
    if field.len() < 2 || v[field.end - 2] != 'm' || v[field.end - 1] != 'm' {
        return None;
    }
    let digits = Span { start: field.start, end: field.end - 2 };
    proof {
        assert(field.of(v@).subrange(0, field.of(v@).len() - 2) =~= digits.of(v@));
    }
    parse_u32(v, digits)
}

fn read_pair(v: &Vec<char>, span: Span, sep: char) -> (out: Option<(u32, u32)>)
    requires
        span.within(v@),
    ensures
        out == parse_pair(span.of(v@), sep),
{
    let parts = split_span(v, span, sep);
    if parts.len() < 2 {
        return None;
    }
    let first = parse_u32(v, parts[0]);
    let second = parse_u32(v, parts[1]);
    match (first, second) {
        (Some(a), Some(b)) => Some((a, b)),
        _ => None,
    }
}

fn read_mode(v: &Vec<char>, field: Span) -> (out: Option<Mode>)
    requires
        field.within(v@),
    ensures
        out == parse_mode(field.of(v@)),
{
    let cut = find_char(v, field, '+');
    if cut >= field.end {
        return None;
    }
    let extent_span = Span { start: field.start, end: cut };
    let origin_span = Span { start: cut + 1, end: field.end };
    proof {
        let s = field.of(v@);
        assert(s.subrange(0, cut - field.start) =~= extent_span.of(v@));
        assert(s.subrange(cut - field.start + 1, s.len() as int) =~= origin_span.of(v@));
    }
    let extent = read_pair(v, extent_span, 'x');
    let origin = read_pair(v, origin_span, '+');
    match (extent, origin) {
        (Some(e), Some(o)) => Some(Mode { pixel_width: e.0, pixel_height: e.1, x: o.0, y: o.1 }),
        _ => None,
    }
}

fn holds_plus(v: &Vec<char>, field: Span) -> (found: bool)
    requires
        field.within(v@),
    ensures
        found == has_plus(field.of(v@)),
{
    find_char(v, field, '+') < field.end
}

fn read_descriptor(v: &Vec<char>, line: Span) -> (out: Option<Fields>)
    requires
        line.within(v@),
    ensures
        out.is_some() <==> parse_descriptor(line.of(v@)).is_some(),
        out.is_some() ==> out.unwrap().name.within(v@) && out.unwrap().model(v@)
            == parse_descriptor(line.of(v@)).unwrap(),
{
    let fields = split_span(v, line, ' ');
    let n: usize = fields.len();
    if n < 3 {
        return None;
    }
    let physical_height = read_millimetres(v, fields[n - 1]);
    let physical_width = read_millimetres(v, fields[n - 3]);
    let mode_span = if holds_plus(v, fields[2]) {
        Some(fields[2])
    } else if n > 3 && holds_plus(v, fields[3]) {
        Some(fields[3])
    } else {
        None
    };
    match (physical_height, physical_width, mode_span) {
        (Some(ph), Some(pw), Some(span)) => match read_mode(v, span) {
            Some(mode) => Some(
                Fields {
                    name: fields[0],
                    pixel_width: mode.pixel_width,
                    pixel_height: mode.pixel_height,
                    physical_width: pw,
                    physical_height: ph,
                    x: mode.x,
                    y: mode.y,
                },
            ),
            None => None,
        },
        _ => None,
    }
}

fn read_bezel(v: &Vec<char>, entry: Span) -> (out: Result<(u32, u32), DomainError>)
    requires
        entry.within(v@),
    ensures
        out == parse_bezel(entry.of(v@)),
{
    let parts = split_span(v, entry, ',');
    if parts.len() < 2 {
        return Ok((0, 0));
    }
    let first = parse_u32(v, parts[0]);
    let second = parse_u32(v, parts[1]);
    match (first, second) {
        (Some(a), Some(b)) => Ok((a, b)),
        _ => Err(DomainError::MalformedBezelSpec),
    }
}

/// One step of `parse_lines`: what the lines from `i` on give, with `found`
/// in front, in terms of what the lines after `i` give.
proof fn lemma_parse_lines_step(
    lines: Seq<Seq<char>>,
    entries: Seq<Seq<char>>,
    i: int,
    found: Seq<MonitorModel>,
)
    requires
        0 <= i < lines.len(),
    ensures
        !is_connected(lines[i]) ==> parse_lines(lines.skip(i), entries, found.len() as int)
            == parse_lines(lines.skip(i + 1), entries, found.len() as int),
        is_connected(lines[i]) ==> prepend(
            found,
            parse_lines(lines.skip(i), entries, found.len() as int),
        ) == match parse_monitor(lines[i], entries, found.len() as int) {
            Err(e) => Err(e),
            Ok(monitor) => prepend(
                found.push(monitor),
                parse_lines(lines.skip(i + 1), entries, found.len() as int + 1),
            ),
        },
{
    let here = lines.skip(i);
    assert(here[0] == lines[i]);
    assert(here.drop_first() =~= lines.skip(i + 1));
    if is_connected(lines[i]) {
        match parse_monitor(lines[i], entries, found.len() as int) {
            Err(_) => {},
            Ok(monitor) => {
                match parse_lines(lines.skip(i + 1), entries, found.len() as int + 1) {
                    Ok(more) => {
                        assert(found + (seq![monitor] + more) =~= found.push(monitor) + more);
                    },
                    Err(_) => {},
                }
            },
        }
    }
}

/// Reads the monitor of one connected line and gives it the bezel of the
/// entry at `position`.
fn read_monitor(
    report: &str,
    text: &Vec<char>,
    line: Span,
    bezel_text: &Vec<char>,
    entries: &Vec<Span>,
    position: usize,
    Ghost(all_entries): Ghost<Seq<Seq<char>>>,
) -> (out: Result<Monitor, DomainError>)
    requires
        text@ == report@,
        line.within(text@),
        entries@.len() == all_entries.len(),
        forall|j: int|
            0 <= j < entries@.len() ==> (#[trigger] entries@[j]).within(bezel_text@)
                && entries@[j].of(bezel_text@) == all_entries[j],
    ensures
        match out {
            Ok(monitor) => parse_monitor(line.of(text@), all_entries, position as int) == Ok::<
                MonitorModel,
                DomainError,
            >(monitor@) && monitor.spec_valid(),
            Err(e) => parse_monitor(line.of(text@), all_entries, position as int) == Err::<
                MonitorModel,
                DomainError,
            >(e),
        },
{
    let fields = match read_descriptor(text, line) {
        Some(fields) => fields,
        None => {
            return Err(DomainError::MalformedDescriptor);
        },
    };
    let bezel = if position < entries.len() {
        read_bezel(bezel_text, entries[position])
    } else {
        Ok((0, 0))
    };
    let (bezel_x, bezel_y) = match bezel {
        Ok(pair) => pair,
        Err(e) => {
            return Err(e);
        },
    };
    let name = report.substring_char(fields.name.start, fields.name.end).to_owned();
    Monitor::new(
        name,
        fields.pixel_width,
        fields.pixel_height,
        fields.physical_width,
        fields.physical_height,
        fields.x,
        fields.y,
        bezel_x,
        bezel_y,
    )
}

/// Reads the monitors of a display report, in the order of their lines, and
/// gives each the bezel that the bezel list holds at its place. Fails with
/// the failure of the first connected line that has one:
/// `MalformedDescriptor` where the line cannot be read, `MalformedBezelSpec`
/// where its bezel entry holds a field that is no number, `InvalidMonitor`
/// where the monitor has no resolution or no physical height.
pub fn parse_monitors(report: &str, bezels: &str) -> (out: Result<Vec<Monitor>, DomainError>)
    ensures
        match out {
            Ok(monitors) => parse_report(report@, bezels@) == Ok::<Seq<MonitorModel>, DomainError>(
                models(monitors@),
            ),
            Err(e) => parse_report(report@, bezels@) == Err::<Seq<MonitorModel>, DomainError>(e),
        },
        out.is_ok() ==> crate::monitor::all_valid(out.unwrap()@),
{
    let text = chars_of(report);
    let bezel_text = chars_of(bezels);
    let lines = split_span(&text, Span { start: 0, end: text.len() }, '\n');
    let entries = split_span(&bezel_text, Span { start: 0, end: bezel_text.len() }, ';');
    let marker = marker_chars();
    let ghost all_lines = split(report@, '\n');
    let ghost all_entries = split(bezels@, ';');
    proof {
        assert(text@.subrange(0, text@.len() as int) =~= report@);
        assert(bezel_text@.subrange(0, bezel_text@.len() as int) =~= bezels@);
        assert(all_lines.skip(0) =~= all_lines);
        assert(models(Seq::<Monitor>::empty()) =~= Seq::<MonitorModel>::empty());
        let rest = parse_lines(all_lines, all_entries, 0);
        match rest {
            Ok(more) => {
                assert(Seq::<MonitorModel>::empty() + more =~= more);
            },
            Err(_) => {},
        }
    }
    let mut monitors: Vec<Monitor> = Vec::new();
    let mut i: usize = 0;
    while i < lines.len()
        invariant
            text@ == report@,
            bezel_text@ == bezels@,
            marker@ == connected_marker(),
            all_lines == split(report@, '\n'),
            all_entries == split(bezels@, ';'),
            lines@.len() == all_lines.len(),
            forall|j: int|
                0 <= j < lines@.len() ==> (#[trigger] lines@[j]).within(text@) && lines@[j].of(
                    text@,
                ) == all_lines[j],
            entries@.len() == all_entries.len(),
            forall|j: int|
                0 <= j < entries@.len() ==> (#[trigger] entries@[j]).within(bezel_text@)
                    && entries@[j].of(bezel_text@) == all_entries[j],
            i <= lines@.len(),
            crate::monitor::all_valid(monitors@),
            parse_report(report@, bezels@) == prepend(
                models(monitors@),
                parse_lines(all_lines.skip(i as int), all_entries, monitors@.len() as int),
            ),
        decreases lines@.len() - i,
    {
        let line = lines[i];
        proof {
            lemma_parse_lines_step(all_lines, all_entries, i as int, models(monitors@));
        }
        if contains_in(&text, line, &marker) {
            let monitor = match read_monitor(
                report,
                &text,
                line,
                &bezel_text,
                &entries,
                monitors.len(),
                Ghost(all_entries),
            ) {
                Ok(monitor) => monitor,
                Err(e) => {
                    return Err(e);
                },
            };
            proof {
                assert(models(monitors@.push(monitor)) =~= models(monitors@).push(monitor@));
            }
            monitors.push(monitor);
        }
        i += 1;
    }
    proof {
        assert(all_lines.skip(i as int) =~= Seq::<Seq<char>>::empty());
        assert(models(monitors@) + Seq::<MonitorModel>::empty() =~= models(monitors@));
    }
    Ok(monitors)
}

} // verus!
