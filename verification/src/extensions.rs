use vstd::prelude::*;
pub mod sorting;
pub mod extended_table;

verus! {

/// The order in which a table's content is shown.
#[derive(Debug, Clone, Copy, PartialEq, Eq, Structural)]
pub enum SortOrder {
    Ascending,
    Descending,
}

/// The order opposite to `o`.
pub open spec fn flipped(o: SortOrder) -> SortOrder {
    match o {
        SortOrder::Ascending => SortOrder::Descending,
        SortOrder::Descending => SortOrder::Ascending,
    }
}

/// Switching the order twice gives the order back, and switching always
/// changes it.
pub proof fn lemma_switch_twice(o: SortOrder)
    ensures
        flipped(flipped(o)) == o,
        flipped(o) != o,
{
}

impl SortOrder {
    /// The opposite order.
    pub fn switch(&self) -> (res: SortOrder)
        ensures
            res == flipped(*self),
    {
        match self {
            SortOrder::Ascending => SortOrder::Descending,
            SortOrder::Descending => SortOrder::Ascending,
        }
    }
}

/// A terminal color.
#[derive(Debug, Clone, Copy, PartialEq, Eq, Structural)]
pub enum Color {
    Reset,
    Black,
    Red,
    Green,
    Yellow,
    Blue,
    Magenta,
    Cyan,
    Gray,
    DarkGray,
    LightRed,
    LightGreen,
    LightYellow,
    LightBlue,
    LightMagenta,
    LightCyan,
    White,
    Rgb(u8, u8, u8),
    Indexed(u8),
}

/// The style of a table cell: foreground, background, and whether it is dimmed.
#[derive(Debug, Clone, Copy, PartialEq, Eq, Structural)]
pub struct CellStyle {
    pub fg: Option<Color>,
    pub bg: Option<Color>,
    pub dim: bool,
}

impl CellStyle {
    /// The plain style.
    pub open spec fn plain() -> CellStyle {
        CellStyle { fg: None, bg: None, dim: false }
    }

    /// A dimmed text in the color `c`.
    pub open spec fn dimmed(c: Color) -> CellStyle {
        CellStyle { fg: Some(c), bg: None, dim: true }
    }

    /// A text in the color `c`.
    pub open spec fn colored(c: Color) -> CellStyle {
        CellStyle { fg: Some(c), bg: None, dim: false }
    }

    /// A plain text on the background `c`.
    pub open spec fn on(c: Color) -> CellStyle {
        CellStyle { fg: None, bg: Some(c), dim: false }
    }
}

/// The orange of a slow value.
pub open spec fn orange() -> Color {
    Color::Rgb(255, 165, 0)
}

/// The style of a time in nanoseconds: white below 20 ms, orange below 50 ms,
/// light red above, all dimmed.
pub open spec fn time_style(value: int) -> CellStyle {
    if value < 20000000 {
        CellStyle::dimmed(Color::White)
    } else if value < 50000000 {
        CellStyle::dimmed(orange())
    } else {
        CellStyle::dimmed(Color::LightRed)
    }
}

/// The style of a time in nanoseconds.
pub fn get_time_style(value: i128) -> (res: CellStyle)
    ensures
        res == time_style(value as int),
{
    if value < 20000000 {
        CellStyle { fg: Some(Color::White), bg: None, dim: true }
    } else if value < 50000000 {
        CellStyle { fg: Some(Color::Rgb(255, 165, 0)), bg: None, dim: true }
    } else {
        CellStyle { fg: Some(Color::LightRed), bg: None, dim: true }
    }
}

/// What a table cell shows: a text, or a time in nanoseconds that is shown
/// in the unit that suits it.
#[derive(Debug)]
pub enum CellContent {
    Text(String),
    Duration(i128),
}

/// The mathematical content of a cell.
pub enum CellText {
    Text(Seq<char>),
    Duration(int),
}

impl View for CellContent {
    type V = CellText;

    open spec fn view(&self) -> CellText {
        match self {
            CellContent::Text(s) => CellText::Text(s@),
            CellContent::Duration(d) => CellText::Duration(*d as int),
        }
    }
}

/// `d` is how long after `earlier` came `later`: known exactly where both
/// are, and then `earlier + d == later`.
pub open spec fn measured_from(d: Option<u64>, later: Option<u64>, earlier: Option<u64>) -> bool {
    &&& d is Some <==> (later is Some && earlier is Some)
    &&& d matches Some(v) ==> earlier->0 + v == later->0
}

/// `d` is how long after `earlier` came `later`, as a wide integer: known
/// exactly where both are, and then `earlier + d == later`.
pub open spec fn measured_wide(d: Option<i128>, later: Option<int>, earlier: Option<int>) -> bool {
    &&& d is Some <==> (later is Some && earlier is Some)
    &&& d matches Some(v) ==> earlier->0 + v == later->0
}

/// The time or number a cell shows as a duration; `None` for a text cell,
/// such as the dash of a missing value.
pub open spec fn shown_time(c: CellText) -> Option<int> {
    match c {
        CellText::Duration(v) => Some(v),
        CellText::Text(_) => None,
    }
}

/// The view of a row of cells.
pub open spec fn row_view(row: Seq<(CellContent, CellStyle)>) -> Seq<(CellText, CellStyle)> {
    row.map_values(|c: (CellContent, CellStyle)| (c.0@, c.1))
}

/// The cell shown where a value is missing: a dash in dark gray.
pub open spec fn missing_cell() -> (CellText, CellStyle) {
    (CellText::Text(seq!['-']), CellStyle::colored(Color::DarkGray))
}

/// The cell of an optional time: the time in its time style, or the missing
/// cell.
pub open spec fn styled_time_cell(value: Option<int>) -> (CellText, CellStyle) {
    match value {
        Some(v) => (CellText::Duration(v), time_style(v)),
        None => missing_cell(),
    }
}

/// The cell of an optional time in a fixed style, or the missing cell.
pub open spec fn plain_time_cell(value: Option<int>, style: CellStyle) -> (CellText, CellStyle) {
    match value {
        Some(v) => (CellText::Duration(v), style),
        None => missing_cell(),
    }
}

/// The missing cell.
pub fn missing_value() -> (res: (CellContent, CellStyle))
    ensures
        (res.0@, res.1) == missing_cell(),
{
    let dash = String::from_str("-");
    proof {
        reveal_strlit("-");
        assert("-"@ =~= seq!['-']);
    }
    (CellContent::Text(dash), CellStyle { fg: Some(Color::DarkGray), bg: None, dim: false })
}

/// The cell of an optional time in its time style.
pub fn styled_time(value: Option<i128>) -> (res: (CellContent, CellStyle))
    ensures
        (res.0@, res.1) == styled_time_cell(
            match value {
                Some(v) => Some(v as int),
                None => None,
            },
        ),
{
    match value {
        Some(v) => (CellContent::Duration(v), get_time_style(v)),
        None => missing_value(),
    }
}

/// The cell of an optional time in the style `style`.
pub fn plain_time(value: Option<i128>, style: CellStyle) -> (res: (CellContent, CellStyle))
    ensures
        (res.0@, res.1) == plain_time_cell(
            match value {
                Some(v) => Some(v as int),
                None => None,
            },
            style,
        ),
{
    match value {
        Some(v) => (CellContent::Duration(v), style),
        None => missing_value(),
    }
}

/// A time in nanoseconds with the style it is shown in; a missing time is
/// shown plain.
#[derive(Debug, Clone, Copy, PartialEq, Eq, Structural)]
pub struct StyledTime {
    pub value: Option<i128>,
    pub style: CellStyle,
}

impl StyledTime {
    /// The time `value` in its time style, or a missing time in the plain
    /// style.
    pub open spec fn styled(value: Option<i128>) -> StyledTime {
        match value {
            Some(v) => StyledTime { value: Some(v), style: time_style(v as int) },
            None => StyledTime { value: None, style: CellStyle::plain() },
        }
    }

    pub fn new(value: Option<i128>) -> (res: StyledTime)
        ensures
            res == StyledTime::styled(value),
    {
        match value {
            Some(v) => StyledTime { value: Some(v), style: get_time_style(v) },
            None => StyledTime { value: None, style: CellStyle { fg: None, bg: None, dim: false } },
        }
    }

    /// The time, or zero where it is missing.
    pub fn get_value(&self) -> (res: i128)
        ensures
            res == match self.value {
                Some(v) => v,
                None => 0,
            },
    {
        match self.value {
            Some(v) => v,
            None => 0,
        }
    }

    pub fn get_style(&self) -> (res: CellStyle)
        ensures
            res == self.style,
    {
        self.style
    }
}

/// A row of a summary table: a dimmed prefix that draws the tree, the label,
/// and the time.
pub type SummaryRow = (String, String, StyledTime);

/// The texts and time of summary rows.
pub open spec fn summary_view(rows: Seq<SummaryRow>) -> Seq<(Seq<char>, Seq<char>, StyledTime)> {
    rows.map_values(|r: SummaryRow| (r.0@, r.1@, r.2))
}

/// The summary row with `prefix`, `label` and the time `value`.
pub fn summary_row(prefix: &str, label: &str, value: Option<i128>) -> (res: SummaryRow)
    ensures
        res.0@ == prefix@,
        res.1@ == label@,
        res.2 == StyledTime::styled(value),
{
    (String::from_str(prefix), String::from_str(label), StyledTime::new(value))
}

/// An optional unsigned time as a wide integer.
pub open spec fn opt_u64(o: Option<u64>) -> Option<int> {
    match o {
        Some(v) => Some(v as int),
        None => None,
    }
}

/// An optional signed time as a wide integer.
pub open spec fn opt_i64(o: Option<i64>) -> Option<int> {
    match o {
        Some(v) => Some(v as int),
        None => None,
    }
}

pub fn widen_u64(o: Option<u64>) -> (res: Option<i128>)
    ensures
        match res {
            Some(v) => opt_u64(o) == Some(v as int),
            None => opt_u64(o) is None,
        },
{
    match o {
        Some(v) => Some(v as i128),
        None => None,
    }
}

pub fn widen_i64(o: Option<i64>) -> (res: Option<i128>)
    ensures
        match res {
            Some(v) => opt_i64(o) == Some(v as int),
            None => opt_i64(o) is None,
        },
{
    match o {
        Some(v) => Some(v as i128),
        None => None,
    }
}

/// A copy of a list of plain values.
pub fn copy_vec<T: Copy>(v: &Vec<T>) -> (res: Vec<T>)
    ensures
        res@ == v@,
{
    let mut res: Vec<T> = Vec::new();
    let mut i: usize = 0;
    while i < v.len()
        invariant
            i <= v@.len(),
            res@ == v@.take(i as int),
        decreases v@.len() - i,
    {
        res.push(v[i]);
        assert(res@ =~= v@.take(i + 1));
        i = i + 1;
    }
    assert(v@.take(v@.len() as int) =~= v@);
    res
}

/// A copy of a list of texts.
pub fn clone_texts(v: &Vec<String>) -> (res: Vec<String>)
    ensures
        res@ == v@,
{
    let mut res: Vec<String> = Vec::new();
    let mut i: usize = 0;
    while i < v.len()
        invariant
            i <= v@.len(),
            res@ == v@.take(i as int),
        decreases v@.len() - i,
    {
        res.push(v[i].clone());
        assert(res@ =~= v@.take(i + 1));
        i = i + 1;
    }
    assert(v@.take(v@.len() as int) =~= v@);
    res
}

/// Rows of a table that can be shown as cells.
pub trait TuiTableData {
    /// The cells of this row; `delta_toggle` chooses between the absolute and
    /// the relative values of the time columns.
    spec fn table_row(&self, delta_toggle: bool) -> Seq<(CellText, CellStyle)>;

    fn construct_tui_table_data(&self, delta_toggle: bool) -> (res: Vec<(CellContent, CellStyle)>)
        ensures
            row_view(res@) == self.table_row(delta_toggle),
    ;
}

} // verus!
