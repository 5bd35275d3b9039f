//! The outline of the tray glyph: an SVG path of absolute `M`/`L`/`C`/`Z`
//! commands, taken apart into polygons.
//!
//! Coordinates stay the text they are written as; [`Point`] says how each corner
//! of a polygon is computed from them.

use crate::text;
use vstd::prelude::*;

verus! {

// ------------------------------------------------------------------- numbers

/// Whether `c` is a sign.
pub open spec fn is_sign(c: char) -> bool {
    c == '+' || c == '-'
}

/// How many digits `s` has from position `i` on.
pub open spec fn digits_from(s: Seq<char>, i: int) -> nat
    decreases s.len() - i,
{
    if 0 <= i < s.len() && text::is_digit(s[i]) {
        1 + digits_from(s, i + 1)
    } else {
        0
    }
}

/// Where a sign at position `i` ends, or `i` where there is none.
pub open spec fn after_sign(s: Seq<char>, i: int) -> int {
    if 0 <= i < s.len() && is_sign(s[i]) {
        i + 1
    } else {
        i
    }
}

/// Whether what is left at position `i` is nothing or an exponent: `e` or `E`, a
/// sign perhaps, and digits.
pub open spec fn exponent_or_end(s: Seq<char>, i: int) -> bool {
    if i == s.len() {
        true
    } else {
        &&& 0 <= i < s.len()
        &&& s[i] == 'e' || s[i] == 'E'
        &&& {
            let start = after_sign(s, i + 1);
            digits_from(s, start) > 0 && start + digits_from(s, start) == s.len()
        }
    }
}

/// Whether `s` is a decimal number: a sign perhaps, digits with at most one point
/// among them and at least one digit, and an exponent perhaps.
pub open spec fn is_number(s: Seq<char>) -> bool {
    let whole_start = after_sign(s, 0);
    let whole = digits_from(s, whole_start);
    let mid = whole_start + whole;
    if 0 <= mid < s.len() && s[mid] == '.' {
        let fraction = digits_from(s, mid + 1);
        whole + fraction > 0 && exponent_or_end(s, mid + 1 + fraction)
    } else {
        whole > 0 && exponent_or_end(s, mid)
    }
}

fn count_digits(v: &Vec<char>, start: usize) -> (end: usize)
    requires
        start <= v@.len(),
    ensures
        end == start + digits_from(v@, start as int),
        end <= v@.len(),
{
    let mut i: usize = start;
    while i < v.len() && '0' <= v[i] && v[i] <= '9'
        invariant
            start <= i <= v@.len(),
            start + digits_from(v@, start as int) == i + digits_from(v@, i as int),
        decreases v@.len() - i,
    {
        i += 1;
    }
    i
}

fn skip_sign(v: &Vec<char>, i: usize) -> (end: usize)
    requires
        i <= v@.len(),
    ensures
        end == after_sign(v@, i as int),
        i <= end <= v@.len(),
{
    if i < v.len() && (v[i] == '+' || v[i] == '-') {
        i + 1
    } else {
        i
    }
}

fn ends_number(v: &Vec<char>, i: usize) -> (yes: bool)
    requires
        i <= v@.len(),
    ensures
        yes == exponent_or_end(v@, i as int),
{
    if i == v.len() {
        return true;
    }
    if v[i] != 'e' && v[i] != 'E' {
        return false;
    }
    let start = skip_sign(v, i + 1);
    let end = count_digits(v, start);
    end > start && end == v.len()
}

/// Whether a token is a decimal number.
pub fn number_token(s: &str) -> (yes: bool)
    ensures
        yes == is_number(s@),
{
    let v = text::chars_of(s);
    let start = skip_sign(&v, 0);
    let mid = count_digits(&v, start);
    if mid < v.len() && v[mid] == '.' {
        let end = count_digits(&v, mid + 1);
        // Digits on either side of the point: more than the point alone.
        end - start > 1 && ends_number(&v, end)
    } else {
        mid > start && ends_number(&v, mid)
    }
}

// -------------------------------------------------------------------- tokens

/// A command with the numbers that follow it.
#[derive(Debug, Clone, PartialEq, Eq)]
pub struct Group {
    pub command: char,
    pub numbers: Vec<String>,
}

/// What a group is.
pub ghost struct Step {
    pub command: char,
    pub numbers: Seq<Seq<char>>,
}

impl View for Group {
    type V = Step;

    open spec fn view(&self) -> Step {
        Step { command: self.command, numbers: text::views(self.numbers@) }
    }
}

/// The contents of a list of groups.
pub open spec fn steps_of(groups: Seq<Group>) -> Seq<Step> {
    Seq::new(groups.len(), |i: int| groups[i]@)
}

/// Where a reading of a path stands: the groups so far, and the characters of a
/// number that has not ended.
pub ghost struct Scan {
    pub steps: Seq<Step>,
    pub number: Seq<char>,
}

/// The scan with its number ended: it joins the group of the last command, where
/// it is a number and there is a command.
pub open spec fn flushed(scan: Scan) -> Scan {
    if is_number(scan.number) && scan.steps.len() > 0 {
        let last = scan.steps.last();
        Scan {
            steps: scan.steps.update(
                scan.steps.len() - 1,
                Step { numbers: last.numbers.push(scan.number), ..last },
            ),
            number: Seq::<char>::empty(),
        }
    } else {
        Scan { number: Seq::<char>::empty(), ..scan }
    }
}

/// Whether a sign goes on with the number: it begins one, or stands in its
/// exponent.
pub open spec fn sign_continues(number: Seq<char>) -> bool {
    number.len() == 0 || number.last() == 'e' || number.last() == 'E'
}

/// The scan after one more character.
pub open spec fn scanned(scan: Scan, c: char) -> Scan {
    if text::is_digit(c) || c == '.' || c == 'e' || c == 'E' {
        Scan { number: scan.number.push(c), ..scan }
    } else if is_sign(c) {
        let before = if sign_continues(scan.number) {
            scan
        } else {
            flushed(scan)
        };
        Scan { number: before.number.push(c), ..before }
    } else if text::is_letter(c) {
        let before = flushed(scan);
        Scan {
            steps: before.steps.push(
                Step { command: text::upper_char(c), numbers: Seq::<Seq<char>>::empty() },
            ),
            ..before
        }
    } else if c == ' ' || c == '\t' || c == '\n' || c == '\r' || c == ',' {
        flushed(scan)
    } else {
        scan
    }
}

/// The scan of a whole text.
pub open spec fn scan_of(path: Seq<char>) -> Scan
    decreases path.len(),
{
    if path.len() == 0 {
        Scan { steps: Seq::<Step>::empty(), number: Seq::<char>::empty() }
    } else {
        scanned(scan_of(path.drop_last()), path.last())
    }
}

fn flush_number(groups: &mut Vec<Group>, number: String)
    ensures
        steps_of(final(groups)@) == flushed(
            Scan { steps: steps_of(old(groups)@), number: number@ },
        ).steps,
{
    let ghost before = steps_of(groups@);
    if number_token(number.as_str()) && groups.len() > 0 {
        let last_group = groups.pop();
        if let Some(mut last) = last_group {
            let ghost old_numbers = text::views(last.numbers@);
            let ghost popped = last@;
            assert(popped == before.last());
            last.numbers.push(number);
            assert(text::views(last.numbers@) =~= old_numbers.push(number@));
            groups.push(last);
            assert(steps_of(groups@) =~= before.update(before.len() - 1, last@));
        }
    }
}

/// Split a path into `(command, numbers)` pairs.
///
/// Each command letter opens a new group; every number after it belongs to that
/// group until the next letter. A sign starts a new number, except inside an
/// exponent; white space and commas separate numbers. A token that is no number
/// is left out, and so is anything unrecognised.
pub fn tokenize_path(path: &str) -> (groups: Vec<Group>)
    ensures
        steps_of(groups@) == flushed(scan_of(path@)).steps,
{
    let v = text::chars_of(path);
    let mut groups: Vec<Group> = Vec::new();
    let mut number = String::new();
    let mut i: usize = 0;
    assert(steps_of(groups@) =~= Seq::<Step>::empty());
    assert(v@.take(0) =~= Seq::<char>::empty());
    while i < v.len()
        invariant
            i <= v@.len(),
            scan_of(v@.take(i as int)) == (Scan { steps: steps_of(groups@), number: number@ }),
        decreases v@.len() - i,
    {
        let c = v[i];
        let ghost scan = scan_of(v@.take(i as int));
        assert(v@.take(i + 1).drop_last() == v@.take(i as int));
        assert(v@.take(i + 1).last() == c);
        if ('0' <= c && c <= '9') || c == '.' || c == 'e' || c == 'E' {
            number.push(c);
        } else if c == '-' || c == '+' {
            let written = text::chars_of(number.as_str());
            let count: usize = written.len();
            let continues = count == 0 || written[count - 1] == 'e' || written[count - 1] == 'E';
            if !continues {
                flush_number(&mut groups, number);
                number = String::new();
            }
            number.push(c);
        } else if ('a' <= c && c <= 'z') || ('A' <= c && c <= 'Z') {
            flush_number(&mut groups, number);
            number = String::new();
            let ghost before = steps_of(groups@);
            let none: Vec<String> = Vec::new();
            assert(text::views(none@) =~= Seq::<Seq<char>>::empty());
            groups.push(Group { command: text::to_upper(c), numbers: none });
            assert(steps_of(groups@) =~= before.push(
                Step { command: text::upper_char(c), numbers: Seq::<Seq<char>>::empty() },
            ));
        } else if c == ' ' || c == '\t' || c == '\n' || c == '\r' || c == ',' {
            flush_number(&mut groups, number);
            number = String::new();
        }
        assert(scanned(scan, c) == (Scan { steps: steps_of(groups@), number: number@ }));
        i += 1;
    }
    assert(v@.take(i as int) == v@);
    flush_number(&mut groups, number);
    groups
}

// ------------------------------------------------------------------ polygons

/// Number of segments per cubic curve.
///
/// At the size of a tray icon one SVG unit is well under a pixel, so 12 segments
/// per curve is comfortably past the point where more would be visible.
pub const CURVE_SEGMENTS: u8 = 12;

/// A pair of coordinates, as they are written.
#[derive(Debug, Clone, PartialEq, Eq)]
pub struct Spot {
    pub x: String,
    pub y: String,
}

/// A corner of a polygon.
#[derive(Debug, Clone, PartialEq, Eq)]
pub enum Point {
    /// A place that the path names.
    At(Spot),
    /// A place on a cubic Bézier curve, `step` of [`CURVE_SEGMENTS`] segments
    /// along it.
    OnCurve { from: Spot, control1: Spot, control2: Spot, to: Spot, step: u8 },
}

/// What a pair of coordinates is.
pub ghost struct Pair {
    pub x: Seq<char>,
    pub y: Seq<char>,
}

/// What a corner is.
pub ghost enum Corner {
    At(Pair),
    OnCurve { from: Pair, control1: Pair, control2: Pair, to: Pair, step: u8 },
}

impl View for Spot {
    type V = Pair;

    open spec fn view(&self) -> Pair {
        Pair { x: self.x@, y: self.y@ }
    }
}

impl View for Point {
    type V = Corner;

    open spec fn view(&self) -> Corner {
        match self {
            Point::At(spot) => Corner::At(spot@),
            Point::OnCurve { from, control1, control2, to, step } => Corner::OnCurve {
                from: from@,
                control1: control1@,
                control2: control2@,
                to: to@,
                step: *step,
            },
        }
    }
}

/// The corners of a polygon.
pub open spec fn corners_of(points: Seq<Point>) -> Seq<Corner> {
    Seq::new(points.len(), |i: int| points[i]@)
}

/// The corners of a list of polygons.
pub open spec fn polygons_of(polygons: Seq<Vec<Point>>) -> Seq<Seq<Corner>> {
    Seq::new(polygons.len(), |i: int| corners_of(polygons[i]@))
}

/// Where the drawing of a path stands.
pub ghost struct Drawing {
    /// The polygons that are done.
    pub polygons: Seq<Seq<Corner>>,
    /// The polygon that is being drawn.
    pub current: Seq<Corner>,
    /// Where the pen is.
    pub cursor: Pair,
    /// Where the current subpath began.
    pub start: Pair,
}

/// The drawing with its current polygon closed: it is kept where it has three
/// corners, and dropped where it encloses nothing.
pub open spec fn closed_off(d: Drawing) -> Drawing {
    if d.current.len() >= 3 {
        Drawing { polygons: d.polygons.push(d.current), current: Seq::<Corner>::empty(), ..d }
    } else {
        Drawing { current: Seq::<Corner>::empty(), ..d }
    }
}

/// The pair of coordinates at position `i`.
pub open spec fn pair_at(numbers: Seq<Seq<char>>, i: int) -> Pair {
    Pair { x: numbers[i], y: numbers[i + 1] }
}

/// The drawing with lines to each pair of coordinates from position `i` on.
pub open spec fn with_lines(d: Drawing, numbers: Seq<Seq<char>>, i: int) -> Drawing
    decreases numbers.len() - i,
{
    if i + 1 < numbers.len() {
        let to = pair_at(numbers, i);
        with_lines(
            Drawing { current: d.current.push(Corner::At(to)), cursor: to, ..d },
            numbers,
            i + 2,
        )
    } else {
        d
    }
}

/// The first `n` corners of a curve.
pub open spec fn curve_corners(from: Pair, control1: Pair, control2: Pair, to: Pair, n: nat) -> Seq<
    Corner,
> {
    Seq::new(
        n,
        |k: int| Corner::OnCurve { from, control1, control2, to, step: (k + 1) as u8 },
    )
}

/// The drawing with a curve for each six coordinates from position `i` on.
pub open spec fn with_curves(d: Drawing, numbers: Seq<Seq<char>>, i: int) -> Drawing
    decreases numbers.len() - i,
{
    if i + 5 < numbers.len() {
        let to = pair_at(numbers, i + 4);
        let corners = curve_corners(
            d.cursor,
            pair_at(numbers, i),
            pair_at(numbers, i + 2),
            to,
            CURVE_SEGMENTS as nat,
        );
        with_curves(Drawing { current: d.current + corners, cursor: to, ..d }, numbers, i + 6)
    } else {
        d
    }
}

/// The drawing after one more command; an unknown command draws nothing.
pub open spec fn drawn(d: Drawing, step: Step) -> Drawing {
    if step.command == 'M' {
        let closed = closed_off(d);
        if step.numbers.len() >= 2 {
            let to = pair_at(step.numbers, 0);
            Drawing { current: seq![Corner::At(to)], cursor: to, start: to, ..closed }
        } else {
            closed
        }
    } else if step.command == 'L' {
        with_lines(d, step.numbers, 0)
    } else if step.command == 'C' {
        with_curves(d, step.numbers, 0)
    } else if step.command == 'Z' {
        Drawing { cursor: d.start, ..closed_off(d) }
    } else {
        d
    }
}

/// The origin of the coordinates.
pub open spec fn origin() -> Pair {
    Pair { x: "0"@, y: "0"@ }
}

/// The drawing of a list of commands.
pub open spec fn drawing_of(steps: Seq<Step>) -> Drawing
    decreases steps.len(),
{
    if steps.len() == 0 {
        Drawing {
            polygons: Seq::<Seq<Corner>>::empty(),
            current: Seq::<Corner>::empty(),
            cursor: origin(),
            start: origin(),
        }
    } else {
        drawn(drawing_of(steps.drop_last()), steps.last())
    }
}

/// The polygons of a path.
pub open spec fn path_polygons(path: Seq<char>) -> Seq<Seq<Corner>> {
    closed_off(drawing_of(flushed(scan_of(path)).steps)).polygons
}

/// The pen of a drawing in progress.
struct Pen {
    polygons: Vec<Vec<Point>>,
    current: Vec<Point>,
    cursor: Spot,
    start: Spot,
}

impl View for Pen {
    type V = Drawing;

    closed spec fn view(&self) -> Drawing {
        Drawing {
            polygons: polygons_of(self.polygons@),
            current: corners_of(self.current@),
            cursor: self.cursor@,
            start: self.start@,
        }
    }
}

fn copy_spot(spot: &Spot) -> (copy: Spot)
    ensures
        copy@ == spot@,
{
    Spot { x: spot.x.clone(), y: spot.y.clone() }
}

fn spot_at(numbers: &Vec<String>, i: usize) -> (spot: Spot)
    requires
        i + 1 < numbers@.len(),
    ensures
        spot@ == pair_at(text::views(numbers@), i as int),
{
    let count: usize = numbers.len();
    assert(i + 1 < count);
    Spot { x: numbers[i].clone(), y: numbers[i + 1].clone() }
}

impl Pen {
    fn close(self) -> (pen: Pen)
        ensures
            pen@ == closed_off(self@),
    {
        let Pen { mut polygons, current, cursor, start } = self;
        let ghost before = polygons_of(polygons@);
        if current.len() >= 3 {
            polygons.push(current);
            assert(polygons_of(polygons@) =~= before.push(corners_of(current@)));
        }
        let none: Vec<Point> = Vec::new();
        assert(corners_of(none@) =~= Seq::<Corner>::empty());
        Pen { polygons, current: none, cursor, start }
    }

    fn line_to(self, to: Spot) -> (pen: Pen)
        ensures
            pen@ == (Drawing {
                current: self@.current.push(Corner::At(to@)),
                cursor: to@,
                ..self@
            }),
    {
        let Pen { polygons, mut current, cursor: _, start } = self;
        let ghost before = corners_of(current@);
        current.push(Point::At(copy_spot(&to)));
        assert(corners_of(current@) =~= before.push(Corner::At(to@)));
        Pen { polygons, current, cursor: to, start }
    }

    fn curve_to(self, control1: Spot, control2: Spot, to: Spot) -> (pen: Pen)
        ensures
            pen@ == (Drawing {
                current: self@.current + curve_corners(
                    self@.cursor,
                    control1@,
                    control2@,
                    to@,
                    CURVE_SEGMENTS as nat,
                ),
                cursor: to@,
                ..self@
            }),
    {
        let Pen { polygons, mut current, cursor, start } = self;
        let ghost before = corners_of(current@);
        let mut step: u8 = 0;
        assert(before + curve_corners(cursor@, control1@, control2@, to@, 0) =~= before);
        while step < CURVE_SEGMENTS
            invariant
                step <= CURVE_SEGMENTS,
                corners_of(current@) == before + curve_corners(
                    cursor@,
                    control1@,
                    control2@,
                    to@,
                    step as nat,
                ),
            decreases CURVE_SEGMENTS - step,
        {
            let ghost now = corners_of(current@);
            let point = Point::OnCurve {
                from: copy_spot(&cursor),
                control1: copy_spot(&control1),
                control2: copy_spot(&control2),
                to: copy_spot(&to),
                step: step + 1,
            };
            let ghost corner = point@;
            current.push(point);
            assert(corners_of(current@) =~= now.push(corner));
            assert(before + curve_corners(cursor@, control1@, control2@, to@, (step + 1) as nat)
                =~= now.push(corner));
            step += 1;
        }
        Pen { polygons, current, cursor: to, start }
    }

    fn draw(self, group: &Group) -> (pen: Pen)
        ensures
            pen@ == drawn(self@, group@),
    {
        let numbers = &group.numbers;
        let ghost texts = text::views(numbers@);
        let count: usize = numbers.len();
        if group.command == 'M' {
            let closed = self.close();
            if count >= 2 {
                let to = spot_at(numbers, 0);
                let Pen { polygons, current: _, cursor: _, start: _ } = closed;
                let mut current: Vec<Point> = Vec::new();
                current.push(Point::At(copy_spot(&to)));
                assert(corners_of(current@) =~= seq![Corner::At(to@)]);
                let start = copy_spot(&to);
                Pen { polygons, current, cursor: to, start }
            } else {
                closed
            }
        } else if group.command == 'L' {
            let mut pen = self;
            let mut i: usize = 0;
            while count >= 2 && i <= count - 2
                invariant
                    i <= count + 1,
                    count == numbers@.len(),
                    texts == text::views(numbers@),
                    with_lines(self@, texts, 0) == with_lines(pen@, texts, i as int),
                decreases count + 2 - i,
            {
                pen = pen.line_to(spot_at(numbers, i));
                i += 2;
            }
            pen
        } else if group.command == 'C' {
            let mut pen = self;
            let mut i: usize = 0;
            while count >= 6 && i <= count - 6
                invariant
                    i <= count + 5,
                    count == numbers@.len(),
                    texts == text::views(numbers@),
                    with_curves(self@, texts, 0) == with_curves(pen@, texts, i as int),
                decreases count + 6 - i,
            {
                pen = pen.curve_to(
                    spot_at(numbers, i),
                    spot_at(numbers, i + 2),
                    spot_at(numbers, i + 4),
                );
                i += 6;
            }
            pen
        } else if group.command == 'Z' {
            let Pen { polygons, current, cursor: _, start } = self.close();
            let cursor = copy_spot(&start);
            Pen { polygons, current, cursor, start }
        } else {
            self
        }
    }
}

/// Flatten an SVG path of absolute `M`/`L`/`C`/`Z` commands into polygons.
///
/// Each curve is subdivided into short segments: its raw coordinate list is
/// control points, not an outline, and filling those directly would distort the
/// silhouette.
pub fn flatten_path(path: &str) -> (polygons: Vec<Vec<Point>>)
    ensures
        polygons_of(polygons@) == path_polygons(path@),
{
    let groups = tokenize_path(path);
    let ghost steps = steps_of(groups@);
    let mut pen = Pen {
        polygons: Vec::new(),
        current: Vec::new(),
        cursor: Spot { x: text::own("0"), y: text::own("0") },
        start: Spot { x: text::own("0"), y: text::own("0") },
    };
    assert(polygons_of(pen.polygons@) =~= Seq::<Seq<Corner>>::empty());
    assert(corners_of(pen.current@) =~= Seq::<Corner>::empty());
    let mut i: usize = 0;
    assert(steps.take(0) =~= Seq::<Step>::empty());
    while i < groups.len()
        invariant
            i <= groups@.len(),
            steps == steps_of(groups@),
            pen@ == drawing_of(steps.take(i as int)),
        decreases groups@.len() - i,
    {
        pen = pen.draw(&groups[i]);
        assert(steps.take(i + 1).drop_last() == steps.take(i as int));
        assert(steps.take(i + 1).last() == groups@[i as int]@);
        i += 1;
    }
    assert(steps.take(i as int) == steps);
    let Pen { polygons, current: _, cursor: _, start: _ } = pen.close();
    polygons
}

// --------------------------------------------------------------------- laws

/// Whether every polygon encloses something.
pub open spec fn all_enclose(polygons: Seq<Seq<Corner>>) -> bool {
    forall|i: int| 0 <= i < polygons.len() ==> (#[trigger] polygons[i]).len() >= 3
}

proof fn lemma_lines_keep_polygons(d: Drawing, numbers: Seq<Seq<char>>, i: int)
    ensures
        with_lines(d, numbers, i).polygons == d.polygons,
    decreases numbers.len() - i,
{
    if i + 1 < numbers.len() {
        let to = pair_at(numbers, i);
        lemma_lines_keep_polygons(
            Drawing { current: d.current.push(Corner::At(to)), cursor: to, ..d },
            numbers,
            i + 2,
        );
    }
}

proof fn lemma_curves_keep_polygons(d: Drawing, numbers: Seq<Seq<char>>, i: int)
    ensures
        with_curves(d, numbers, i).polygons == d.polygons,
    decreases numbers.len() - i,
{
    if i + 5 < numbers.len() {
        let to = pair_at(numbers, i + 4);
        let corners = curve_corners(
            d.cursor,
            pair_at(numbers, i),
            pair_at(numbers, i + 2),
            to,
            CURVE_SEGMENTS as nat,
        );
        lemma_curves_keep_polygons(
            Drawing { current: d.current + corners, cursor: to, ..d },
            numbers,
            i + 6,
        );
    }
}

proof fn lemma_drawings_enclose(steps: Seq<Step>)
    ensures
        all_enclose(drawing_of(steps).polygons),
    decreases steps.len(),
{
    if steps.len() > 0 {
        let before = drawing_of(steps.drop_last());
        let step = steps.last();
        lemma_drawings_enclose(steps.drop_last());
        lemma_lines_keep_polygons(before, step.numbers, 0);
        lemma_curves_keep_polygons(before, step.numbers, 0);
    }
}

/// Every polygon of a path has at least three corners.
pub proof fn polygons_enclose(path: Seq<char>)
    ensures
        all_enclose(path_polygons(path)),
{
    lemma_drawings_enclose(flushed(scan_of(path)).steps);
}

/// The commands that the letters of a path stand for; `e` and `E` belong to
/// numbers.
pub open spec fn letters_of(path: Seq<char>) -> Seq<char>
    decreases path.len(),
{
    if path.len() == 0 {
        path
    } else {
        let before = letters_of(path.drop_last());
        let c = path.last();
        if text::is_letter(c) && c != 'e' && c != 'E' {
            before.push(text::upper_char(c))
        } else {
            before
        }
    }
}

/// The commands of a list of groups.
pub open spec fn commands_of(steps: Seq<Step>) -> Seq<char> {
    Seq::new(steps.len(), |i: int| steps[i].command)
}

proof fn lemma_letters(path: Seq<char>)
    ensures
        commands_of(scan_of(path).steps) == letters_of(path),
    decreases path.len(),
{
    if path.len() == 0 {
        assert(commands_of(scan_of(path).steps) =~= letters_of(path));
    } else {
        let scan = scan_of(path.drop_last());
        lemma_letters(path.drop_last());
        assert(commands_of(flushed(scan).steps) =~= commands_of(scan.steps));
        assert(commands_of(scan_of(path).steps) =~= letters_of(path));
    }
}

/// Each command letter of a path opens a group of its own, in the order of the
/// letters.
pub proof fn each_letter_opens_a_group(path: Seq<char>)
    ensures
        commands_of(flushed(scan_of(path)).steps) == letters_of(path),
{
    lemma_letters(path);
    let scan = scan_of(path);
    assert(commands_of(flushed(scan).steps) =~= commands_of(scan.steps));
}

proof fn lemma_digits_run(front: Seq<char>, digits: Seq<char>, back: Seq<char>)
    requires
        forall|i: int| 0 <= i < digits.len() ==> text::is_digit(#[trigger] digits[i]),
        back.len() == 0 || !text::is_digit(back[0]),
    ensures
        digits_from(front + digits + back, front.len() as int) == digits.len(),
    decreases digits.len(),
{
    let s = front + digits + back;
    let n = front.len() as int;
    if digits.len() == 0 {
        assert(back.len() > 0 ==> s[n] == back[0]);
    } else {
        assert(text::is_digit(digits[0]));
        assert(s[n] == digits[0]);
        let rest = digits.skip(1);
        assert forall|i: int| 0 <= i < rest.len() implies text::is_digit(#[trigger] rest[i]) by {
            assert(rest[i] == digits[i + 1]);
        }
        lemma_digits_run(front.push(digits[0]), rest, back);
        assert(front.push(digits[0]) + rest + back =~= s);
    }
}

/// Which tokens are numbers: a sign perhaps, digits, a point with digits on either side of
/// it or on one, and an exponent perhaps, with a sign of its own perhaps.
pub proof fn decimal_numbers_are_numbers(
    sign: Seq<char>,
    whole: Seq<char>,
    fraction: Seq<char>,
    e: char,
    power_sign: Seq<char>,
    power: Seq<char>,
)
    requires
        sign == Seq::<char>::empty() || sign == seq!['-'] || sign == seq!['+'],
        power_sign == Seq::<char>::empty() || power_sign == seq!['-'] || power_sign == seq!['+'],
        forall|i: int| 0 <= i < whole.len() ==> text::is_digit(#[trigger] whole[i]),
        forall|i: int| 0 <= i < fraction.len() ==> text::is_digit(#[trigger] fraction[i]),
        forall|i: int| 0 <= i < power.len() ==> text::is_digit(#[trigger] power[i]),
        e == 'e' || e == 'E',
        whole.len() + fraction.len() > 0,
        power.len() > 0,
    ensures
        is_number(sign + whole + seq!['.'] + fraction),
        is_number(sign + whole + seq!['.'] + fraction + (seq![e] + power_sign + power)),
        whole.len() > 0 ==> is_number(sign + whole),
        whole.len() > 0 ==> is_number(sign + whole + (seq![e] + power_sign + power)),
        !is_number(sign),
        !is_number(sign + seq!['.']),
{
    let none = Seq::<char>::empty();
    let exponent = seq![e] + power_sign + power;
    lemma_number_shape(sign, whole, fraction, none);
    lemma_number_shape(sign, whole, fraction, exponent);
    lemma_exponent(sign + whole + seq!['.'] + fraction, e, power_sign, power);
    lemma_exponent(sign + whole, e, power_sign, power);
    assert(sign + whole + seq!['.'] + fraction + none =~= sign + whole + seq!['.'] + fraction);
    if whole.len() > 0 {
        lemma_whole_shape(sign, whole, none);
        lemma_whole_shape(sign, whole, exponent);
        assert(sign + whole + none =~= sign + whole);
    }
    lemma_whole_shape(sign, none, none);
    assert(sign + none + none =~= sign);
    lemma_number_shape(sign, none, none, none);
    assert(sign + none + seq!['.'] + none + none =~= sign + seq!['.']);
}

proof fn lemma_number_shape(
    sign: Seq<char>,
    whole: Seq<char>,
    fraction: Seq<char>,
    tail: Seq<char>,
)
    requires
        sign == Seq::<char>::empty() || sign == seq!['-'] || sign == seq!['+'],
        forall|i: int| 0 <= i < whole.len() ==> text::is_digit(#[trigger] whole[i]),
        forall|i: int| 0 <= i < fraction.len() ==> text::is_digit(#[trigger] fraction[i]),
        tail.len() == 0 || !text::is_digit(tail[0]),
    ensures
        ({
            let s = sign + whole + seq!['.'] + fraction + tail;
            is_number(s) <==> whole.len() + fraction.len() > 0 && exponent_or_end(
                s,
                1int + sign.len() + whole.len() + fraction.len(),
            )
        }),
{
    let s = sign + whole + seq!['.'] + fraction + tail;
    let dot = seq!['.'] + fraction + tail;
    assert(s =~= sign + whole + dot);
    lemma_digits_run(sign, whole, dot);
    assert(s =~= (sign + whole + seq!['.']) + fraction + tail);
    lemma_digits_run(sign + whole + seq!['.'], fraction, tail);
    if sign.len() == 0 {
        assert(whole.len() > 0 ==> s[0] == whole[0] && text::is_digit(whole[0]));
        assert(whole.len() == 0 ==> s[0] == '.');
    } else {
        assert(s[0] == sign[0]);
    }
    assert(after_sign(s, 0) == sign.len());
    assert(s[sign.len() + whole.len() as int] == '.');
}

proof fn lemma_whole_shape(sign: Seq<char>, whole: Seq<char>, tail: Seq<char>)
    requires
        sign == Seq::<char>::empty() || sign == seq!['-'] || sign == seq!['+'],
        forall|i: int| 0 <= i < whole.len() ==> text::is_digit(#[trigger] whole[i]),
        tail.len() == 0 || (!text::is_digit(tail[0]) && tail[0] != '.' && !is_sign(tail[0])),
    ensures
        ({
            let s = sign + whole + tail;
            is_number(s) <==> whole.len() > 0 && exponent_or_end(s, 0int + sign.len() + whole.len())
        }),
{
    let s = sign + whole + tail;
    lemma_digits_run(sign, whole, tail);
    if sign.len() == 0 {
        assert(whole.len() > 0 ==> s[0] == whole[0] && text::is_digit(whole[0]));
        assert(whole.len() == 0 && tail.len() > 0 ==> s[0] == tail[0]);
    } else {
        assert(s[0] == sign[0]);
    }
    assert(after_sign(s, 0) == sign.len());
    if tail.len() > 0 {
        assert(s[sign.len() + whole.len() as int] == tail[0]);
    }
}

proof fn lemma_exponent(front: Seq<char>, e: char, sign: Seq<char>, power: Seq<char>)
    requires
        e == 'e' || e == 'E',
        sign == Seq::<char>::empty() || sign == seq!['-'] || sign == seq!['+'],
        forall|i: int| 0 <= i < power.len() ==> text::is_digit(#[trigger] power[i]),
        power.len() > 0,
    ensures
        exponent_or_end(front + (seq![e] + sign + power), front.len() as int),
        exponent_or_end(front, front.len() as int),
{
    let s = front + (seq![e] + sign + power);
    let n = front.len() as int;
    assert(s[n] == e);
    let head = front + seq![e] + sign;
    let none = Seq::<char>::empty();
    assert(s =~= head + power + none);
    lemma_digits_run(head, power, none);
    if sign.len() == 0 {
        assert(s[n + 1] == power[0] && text::is_digit(power[0]));
    } else {
        assert(s[n + 1] == sign[0]);
    }
    assert(after_sign(s, n + 1) == n + 1 + sign.len());
}

/// A number holds a digit, and nothing but digits, signs, points and the letter of an
/// exponent.
pub proof fn numbers_hold_nothing_else(s: Seq<char>)
    requires
        is_number(s),
    ensures
        exists|i: int| 0 <= i < s.len() && text::is_digit(#[trigger] s[i]),
        forall|i: int|
            0 <= i < s.len() ==> text::is_digit(#[trigger] s[i]) || is_sign(s[i]) || s[i] == '.'
                || s[i] == 'e' || s[i] == 'E',
{
    let start = after_sign(s, 0);
    let whole = digits_from(s, start);
    let mid = start + whole;
    lemma_digits_are(s, start);
    if 0 <= mid < s.len() && s[mid] == '.' {
        let fraction = digits_from(s, mid + 1);
        lemma_digits_are(s, mid + 1);
        lemma_exponent_chars(s, mid + 1 + fraction);
        if whole > 0 {
            assert(text::is_digit(s[start]));
        } else {
            assert(text::is_digit(s[mid + 1]));
        }
    } else {
        lemma_exponent_chars(s, mid);
        assert(text::is_digit(s[start]));
    }
}

proof fn lemma_digits_are(s: Seq<char>, i: int)
    requires
        0 <= i,
    ensures
        forall|k: int| i <= k < i + digits_from(s, i) ==> text::is_digit(#[trigger] s[k]),
        digits_from(s, i) > 0 ==> i + digits_from(s, i) <= s.len(),
    decreases s.len() - i,
{
    if i < s.len() && text::is_digit(s[i]) {
        lemma_digits_are(s, i + 1);
    }
}

proof fn lemma_exponent_chars(s: Seq<char>, i: int)
    requires
        0 <= i,
        exponent_or_end(s, i),
    ensures
        forall|k: int|
            i <= k < s.len() ==> text::is_digit(#[trigger] s[k]) || is_sign(s[k]) || s[k] == 'e'
                || s[k] == 'E',
{
    if i < s.len() {
        lemma_digits_are(s, after_sign(s, i + 1));
    }
}

/// The groups of a path.
pub open spec fn groups_of(path: Seq<char>) -> Seq<Step> {
    flushed(scan_of(path)).steps
}

/// How a path grows by one character. A letter but `e` opens a group of its own, of the
/// capital letter, with no numbers; what separates numbers, and what is not recognised,
/// changes no group.
pub proof fn letters_open_groups(path: Seq<char>, c: char)
    ensures
        ('a' <= c <= 'z' || 'A' <= c <= 'Z') && c != 'e' && c != 'E' ==> {
            &&& groups_of(path.push(c)).len() == groups_of(path).len() + 1
            &&& groups_of(path.push(c)).drop_last() == groups_of(path)
            &&& groups_of(path.push(c)).last().numbers.len() == 0
            &&& 'A' <= c <= 'Z' ==> groups_of(path.push(c)).last().command == c
            &&& 'a' <= c <= 'z' ==> groups_of(path.push(c)).last().command as int == c as int - 32
        },
        c == ' ' || c == ',' || c == '\n' || c == '\t' || c == '\r' ==> groups_of(path.push(c))
            == groups_of(path),
{
    let all = path.push(c);
    assert(all.drop_last() =~= path);
    let scan = scan_of(path);
    let none = Seq::<char>::empty();
    assert(!is_number(none)) by {
        if is_number(none) {
            numbers_hold_nothing_else(none);
        }
    }
    if ('a' <= c <= 'z' || 'A' <= c <= 'Z') && c != 'e' && c != 'E' {
        let after = scan_of(all);
        assert(after.number =~= none);
        assert(flushed(after).steps == after.steps);
        assert(after.steps.drop_last() =~= flushed(scan).steps);
    }
}

/// A number that follows a letter or a separator joins the group of the last letter, at
/// its end; one that comes before any letter is left out.
pub proof fn numbers_join_the_last_group(path: Seq<char>, c: char, number: Seq<char>)
    requires
        (text::is_letter(c) && c != 'e' && c != 'E') || c == ' ' || c == ',' || c == '\n' || c == '\t'
            || c == '\r',
        is_number(number),
        forall|i: int|
            0 < i < number.len() && is_sign(#[trigger] number[i]) ==> number[i - 1] == 'e'
                || number[i - 1] == 'E',
    ensures
        ({
            let before = groups_of(path.push(c));
            let after = groups_of(path.push(c) + number);
            &&& before.len() == 0 ==> after.len() == 0
            &&& before.len() > 0 ==> {
                &&& after.len() == before.len()
                &&& after.drop_last() == before.drop_last()
                &&& after.last().command == before.last().command
                &&& after.last().numbers == before.last().numbers.push(number)
            }
        }),
{
    let start = path.push(c);
    assert(start.drop_last() =~= path);
    let none = Seq::<char>::empty();
    assert(!is_number(none)) by {
        if is_number(none) {
            numbers_hold_nothing_else(none);
        }
    }
    let scan = scan_of(start);
    assert(scan.number =~= none);
    numbers_hold_nothing_else(number);
    lemma_number_scanned(start, number, number.len() as int);
    assert(number.take(number.len() as int) =~= number);
    let before = groups_of(start);
    let after = groups_of(start + number);
    if before.len() > 0 {
        assert(after.drop_last() =~= before.drop_last());
    }
}

proof fn lemma_number_scanned(start: Seq<char>, number: Seq<char>, n: int)
    requires
        0 <= n <= number.len(),
        scan_of(start).number == Seq::<char>::empty(),
        forall|i: int|
            0 <= i < number.len() ==> text::is_digit(#[trigger] number[i]) || is_sign(number[i])
                || number[i] == '.' || number[i] == 'e' || number[i] == 'E',
        forall|i: int|
            0 < i < number.len() && is_sign(#[trigger] number[i]) ==> number[i - 1] == 'e'
                || number[i - 1] == 'E',
    ensures
        scan_of(start + number.take(n)) == (Scan {
            steps: scan_of(start).steps,
            number: number.take(n),
        }),
    decreases n,
{
    if n == 0 {
        assert(start + number.take(0) =~= start);
        assert(number.take(0) =~= Seq::<char>::empty());
    } else {
        lemma_number_scanned(start, number, n - 1);
        let all = start + number.take(n);
        assert(all.drop_last() =~= start + number.take(n - 1));
        assert(all.last() == number[n - 1]);
        assert(number.take(n) =~= number.take(n - 1).push(number[n - 1]));
        if n > 1 {
            assert(number.take(n - 1).last() == number[n - 2]);
        }
    }
}

/// A sign that does not stand in an exponent begins the next number: a path reads the same
/// with a space before it.
pub proof fn signs_begin_numbers(path: Seq<char>, sign: char)
    requires
        is_sign(sign),
        scan_of(path).number.len() > 0,
        !(scan_of(path).number.last() == 'e' || scan_of(path).number.last() == 'E'),
    ensures
        scan_of(path.push(sign)) == scan_of(path.push(' ').push(sign)),
{
    assert(path.push(sign).drop_last() =~= path);
    assert(path.push(' ').drop_last() =~= path);
    assert(path.push(' ').push(sign).drop_last() =~= path.push(' '));
    let flat = flushed(scan_of(path));
    assert(scan_of(path.push(' ')) == flat);
    let begun = Scan { number: flat.number.push(sign), ..flat };
    assert(scan_of(path.push(sign)) == begun);
    assert(scan_of(path.push(' ').push(sign)) == scanned(flat, sign));
}

/// The corners that lines to a list of coordinates add: one at each pair of them, in their
/// order.
pub proof fn lines_go_to_each_pair(d: Drawing, numbers: Seq<Seq<char>>, k: int)
    requires
        0 <= k,
        2 * k + 1 < numbers.len(),
    ensures
        ({
            let after = drawn(d, Step { command: 'L', numbers });
            &&& after.current.len() == d.current.len() + numbers.len() / 2
            &&& after.current[d.current.len() + k] == Corner::At(
                Pair { x: numbers[2 * k], y: numbers[2 * k + 1] },
            )
            &&& after.current.take(d.current.len() as int) == d.current
            &&& after.polygons == d.polygons
            &&& after.start == d.start
            &&& after.cursor == (Pair {
                x: numbers[2 * (numbers.len() / 2) - 2],
                y: numbers[2 * (numbers.len() / 2) - 1],
            })
        }),
{
    lemma_lines(d, numbers, 0, k);
}

proof fn lemma_lines(d: Drawing, numbers: Seq<Seq<char>>, i: int, k: int)
    requires
        0 <= i,
        i % 2 == 0,
        i <= 2 * k,
        2 * k + 1 < numbers.len(),
    ensures
        ({
            let after = with_lines(d, numbers, i);
            &&& after.current.len() == d.current.len() + (numbers.len() - i) / 2
            &&& after.current[d.current.len() + k - i / 2] == Corner::At(
                Pair { x: numbers[2 * k], y: numbers[2 * k + 1] },
            )
            &&& after.current.take(d.current.len() as int) == d.current
            &&& after.polygons == d.polygons
            &&& after.start == d.start
            &&& after.cursor == (Pair {
                x: numbers[2 * (numbers.len() / 2) - 2],
                y: numbers[2 * (numbers.len() / 2) - 1],
            })
        }),
    decreases numbers.len() - i,
{
    let to = pair_at(numbers, i);
    let next = Drawing { current: d.current.push(Corner::At(to)), cursor: to, ..d };
    let after = with_lines(d, numbers, i);
    assert(after == with_lines(next, numbers, i + 2));
    if i + 3 < numbers.len() {
        let j = if k == i / 2 {
            k + 1
        } else {
            k
        };
        lemma_lines(next, numbers, i + 2, j);
        assert(after.current.take(next.current.len() as int)[d.current.len() as int] == Corner::At(to));
        assert(after.current.take(d.current.len() as int) =~= after.current.take(
            next.current.len() as int,
        ).take(d.current.len() as int));
        assert(next.current.take(d.current.len() as int) =~= d.current);
    } else {
        assert(after == next);
        assert(k == i / 2);
        assert(after.current.take(d.current.len() as int) =~= d.current);
        assert(numbers.len() / 2 == i / 2 + 1);
    }
}

/// The corners that one curve adds: twelve, from the first twelfth of the way to its end,
/// all of them on the curve from where the pen is, by the two control points, to the last
/// pair of coordinates, where the pen is afterwards.
pub proof fn a_curve_has_twelve_corners(d: Drawing, numbers: Seq<Seq<char>>, k: int)
    requires
        numbers.len() == 6,
        0 <= k < 12,
    ensures
        ({
            let after = drawn(d, Step { command: 'C', numbers });
            let to = Pair { x: numbers[4], y: numbers[5] };
            &&& after.current.len() == d.current.len() + 12
            &&& after.current[d.current.len() + k] == (Corner::OnCurve {
                from: d.cursor,
                control1: Pair { x: numbers[0], y: numbers[1] },
                control2: Pair { x: numbers[2], y: numbers[3] },
                to,
                step: (k + 1) as u8,
            })
            &&& after.current.take(d.current.len() as int) == d.current
            &&& after.cursor == to
            &&& after.polygons == d.polygons
            &&& after.start == d.start
        }),
{
    let to = pair_at(numbers, 4);
    let corners = curve_corners(d.cursor, pair_at(numbers, 0), pair_at(numbers, 2), to, 12);
    let next = Drawing { current: d.current + corners, cursor: to, ..d };
    assert(with_curves(next, numbers, 6) == next);
    assert((d.current + corners).take(d.current.len() as int) =~= d.current);
}

/// A group of more coordinates draws one curve after the other, each from where the one
/// before it ended.
pub proof fn curves_follow_each_other(d: Drawing, one: Seq<Seq<char>>, more: Seq<Seq<char>>)
    requires
        one.len() == 6,
    ensures
        drawn(d, Step { command: 'C', numbers: one + more }) == drawn(
            drawn(d, Step { command: 'C', numbers: one }),
            Step { command: 'C', numbers: more },
        ),
{
    let all = one + more;
    let to = pair_at(all, 4);
    assert(all[0] == one[0] && all[1] == one[1] && all[2] == one[2] && all[3] == one[3] && all[4]
        == one[4] && all[5] == one[5]);
    let corners = curve_corners(
        d.cursor,
        pair_at(all, 0),
        pair_at(all, 2),
        to,
        CURVE_SEGMENTS as nat,
    );
    let next = Drawing { current: d.current + corners, cursor: to, ..d };
    assert(with_curves(next, one, 6) == next);
    assert(with_curves(d, one, 0) == next);
    lemma_curves_shift(next, one, more, 0);
}

proof fn lemma_curves_shift(d: Drawing, one: Seq<Seq<char>>, more: Seq<Seq<char>>, i: int)
    requires
        0 <= i,
        one.len() == 6,
    ensures
        with_curves(d, one + more, i + 6) == with_curves(d, more, i),
    decreases more.len() - i,
{
    let all = one + more;
    if i + 5 < more.len() {
        assert(all[i + 6] == more[i] && all[i + 7] == more[i + 1] && all[i + 8] == more[i + 2]
            && all[i + 9] == more[i + 3] && all[i + 10] == more[i + 4] && all[i + 11] == more[i
            + 5]);
        let to = pair_at(more, i + 4);
        let corners = curve_corners(
            d.cursor,
            pair_at(more, i),
            pair_at(more, i + 2),
            to,
            CURVE_SEGMENTS as nat,
        );
        lemma_curves_shift(
            Drawing { current: d.current + corners, cursor: to, ..d },
            one,
            more,
            i + 6,
        );
    }
}

/// Moving the pen and closing the path end the polygon that is being drawn: it is kept, as
/// it is, exactly where it has three corners. A move starts the next one where it goes; a
/// close brings the pen back to where the polygon began. Any other command draws nothing.
pub proof fn moves_and_closes_end_polygons(d: Drawing, step: Step)
    ensures
        ({
            let after = drawn(d, step);
            let ends = step.command == 'M' || step.command == 'Z';
            &&& ends && d.current.len() >= 3 ==> after.polygons == d.polygons.push(d.current)
            &&& ends && d.current.len() < 3 ==> after.polygons == d.polygons
            &&& step.command == 'Z' ==> after.current.len() == 0 && after.cursor == d.start
                && after.start == d.start
            &&& step.command == 'M' && step.numbers.len() >= 2 ==> {
                let to = Pair { x: step.numbers[0], y: step.numbers[1] };
                after.current == seq![Corner::At(to)] && after.cursor == to && after.start == to
            }
            &&& step.command == 'M' && step.numbers.len() < 2 ==> after.current.len() == 0
                && after.cursor == d.cursor && after.start == d.start
            &&& step.command != 'M' && step.command != 'L' && step.command != 'C' && step.command
                != 'Z' ==> after == d
        }),
{
}

/// The polygons of a path are those of its groups, taken in order from a pen at the origin
/// with nothing drawn, and the last one is closed at the end of the path.
pub proof fn paths_are_drawn_group_by_group(path: &str, polygons: Vec<Vec<Point>>, groups: Vec<Group>)
    requires
        call_ensures(flatten_path, (path,), polygons),
        call_ensures(tokenize_path, (path,), groups),
    ensures
        steps_of(groups@) == groups_of(path@),
        ({
            let d = drawing_of(groups_of(path@));
            &&& d.current.len() >= 3 ==> polygons_of(polygons@) == d.polygons.push(d.current)
            &&& d.current.len() < 3 ==> polygons_of(polygons@) == d.polygons
        }),
        forall|steps: Seq<Step>, step: Step| #[trigger]
            drawing_of(steps.push(step)) == drawn(drawing_of(steps), step),
        ({
            let d = drawing_of(Seq::<Step>::empty());
            &&& d.polygons.len() == 0 && d.current.len() == 0
            &&& d.cursor == (Pair { x: "0"@, y: "0"@ }) && d.start == d.cursor
        }),
{
    assert forall|steps: Seq<Step>, step: Step| #[trigger] drawing_of(steps.push(step)) == drawn(
        drawing_of(steps),
        step,
    ) by {
        assert(steps.push(step).drop_last() =~= steps);
    }
}

} // verus!
