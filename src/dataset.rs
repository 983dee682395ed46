use vstd::prelude::*;
use crate::number::{is_number_field, is_number_text};

verus! {

/// ASCII whitespace (space, tab, line feed, vertical tab, form feed, carriage
/// return), which separates the fields of a line.
pub open spec fn is_blank(b: u8) -> bool {
    b == 32 || (9 <= b && b <= 13)
}

/// The views of a sequence of byte vectors.
pub open spec fn views(v: Seq<Vec<u8>>) -> Seq<Seq<u8>> {
    v.map_values(|x: Vec<u8>| x@)
}

/// Scanning `s` from the left for lines: the finished lines and the open one.
pub open spec fn line_scan(s: Seq<u8>) -> (Seq<Seq<u8>>, Seq<u8>)
    decreases s.len(),
{
    if s.len() == 0 {
        (seq![], seq![])
    } else {
        let (done, cur) = line_scan(s.drop_last());
        if s.last() == 10 {
            (done.push(cur), seq![])
        } else {
            (done, cur.push(s.last()))
        }
    }
}

/// The lines of `s`: split at each newline, with no empty line after a final newline.
pub open spec fn lines_of(s: Seq<u8>) -> Seq<Seq<u8>> {
    let (done, cur) = line_scan(s);
    if cur.len() > 0 { done.push(cur) } else { done }
}

/// Scanning `s` from the left for fields: the finished fields and the open one.
pub open spec fn field_scan(s: Seq<u8>) -> (Seq<Seq<u8>>, Seq<u8>)
    decreases s.len(),
{
    if s.len() == 0 {
        (seq![], seq![])
    } else {
        let (done, cur) = field_scan(s.drop_last());
        if is_blank(s.last()) {
            if cur.len() > 0 { (done.push(cur), seq![]) } else { (done, seq![]) }
        } else {
            (done, cur.push(s.last()))
        }
    }
}

/// The maximal runs of non-blank bytes of `s`, in order.
pub open spec fn fields_of(s: Seq<u8>) -> Seq<Seq<u8>> {
    let (done, cur) = field_scan(s);
    if cur.len() > 0 { done.push(cur) } else { done }
}

/// Splits a text into its lines.
pub fn split_lines(text: &[u8]) -> (r: Vec<Vec<u8>>)
    ensures
        views(r@) == lines_of(text@),
{
    let mut done: Vec<Vec<u8>> = Vec::new();
    let mut cur: Vec<u8> = Vec::new();
    let mut i: usize = 0;
    while i < text.len()
        invariant
            i <= text.len(),
            (views(done@), cur@) == line_scan(text@.subrange(0, i as int)),
        decreases text.len() - i,
    {
        proof {
            assert(text@.subrange(0, i + 1).drop_last() =~= text@.subrange(0, i as int));
        }
        if text[i] == 10 {
            let line = cur;
            proof {
                assert(views(done@.push(line)) =~= views(done@).push(line@));
            }
            done.push(line);
            cur = Vec::new();
            proof {
                assert(cur@ =~= seq![]);
            }
        } else {
            cur.push(text[i]);
        }
        i = i + 1;
    }
    proof {
        assert(text@.subrange(0, i as int) =~= text@);
    }
    if cur.len() > 0 {
        proof {
            assert(views(done@.push(cur)) =~= views(done@).push(cur@));
        }
        done.push(cur);
    }
    done
}

/// Splits a line into its whitespace-separated fields.
pub fn split_fields(line: &[u8]) -> (r: Vec<Vec<u8>>)
    ensures
        views(r@) == fields_of(line@),
{
    let mut done: Vec<Vec<u8>> = Vec::new();
    let mut cur: Vec<u8> = Vec::new();
    let mut i: usize = 0;
    while i < line.len()
        invariant
            i <= line.len(),
            (views(done@), cur@) == field_scan(line@.subrange(0, i as int)),
        decreases line.len() - i,
    {
        proof {
            assert(line@.subrange(0, i + 1).drop_last() =~= line@.subrange(0, i as int));
        }
        let b = line[i];
        if is_blank_byte(b) {
            if cur.len() > 0 {
                let field = cur;
                proof {
                    assert(views(done@.push(field)) =~= views(done@).push(field@));
                }
                done.push(field);
            }
            cur = Vec::new();
            proof {
                assert(cur@ =~= seq![]);
            }
        } else {
            cur.push(b);
        }
        i = i + 1;
    }
    proof {
        assert(line@.subrange(0, i as int) =~= line@);
    }
    if cur.len() > 0 {
        proof {
            assert(views(done@.push(cur)) =~= views(done@).push(cur@));
        }
        done.push(cur);
    }
    done
}

fn is_blank_byte(b: u8) -> (r: bool)
    ensures
        r == is_blank(b),
{
    b == 32 || (9 <= b && b <= 13)
}

/// Number of whitespace-separated fields on each line of a dataset file.
pub const FIELD_COUNT: usize = 14;

/// Why a dataset text was refused. Lines are counted from zero.
#[derive(Debug, Clone, Copy, PartialEq, Eq, Structural)]
pub enum LoadError {
    /// The line does not hold exactly `FIELD_COUNT` fields; it holds `found`.
    FieldCount { line: usize, found: usize },
    /// Field `field` of the line is not the text of a number.
    Parse { line: usize, field: usize },
}

/// The first field of `fs` that is not a number, or its length.
pub open spec fn first_bad_field(fs: Seq<Seq<u8>>, j: int) -> bool {
    0 <= j < fs.len() && !is_number_text(fs[j]) && forall|k: int|
        0 <= k < j ==> is_number_text(#[trigger] fs[k])
}

/// A line of a dataset file that makes a record.
pub open spec fn line_ok(l: Seq<u8>) -> bool {
    fields_of(l).len() == FIELD_COUNT && forall|j: int|
        0 <= j < fields_of(l).len() ==> is_number_text(#[trigger] fields_of(l)[j])
}

/// What `e` says of line `l`, numbered `i`.
pub open spec fn error_for(e: LoadError, i: int, l: Seq<u8>) -> bool {
    match e {
        LoadError::FieldCount { line, found } => line == i && found == fields_of(l).len()
            && found != FIELD_COUNT,
        LoadError::Parse { line, field } => line == i && fields_of(l).len() == FIELD_COUNT
            && first_bad_field(fields_of(l), field as int),
    }
}

/// The fields of one record, checked: exactly `FIELD_COUNT` number texts.
pub fn scan_line(line: &[u8], index: usize) -> (r: Result<Vec<Vec<u8>>, LoadError>)
    ensures
        match r {
            Ok(fs) => line_ok(line@) && views(fs@) == fields_of(line@),
            Err(e) => !line_ok(line@) && error_for(e, index as int, line@),
        },
{
    let fs = split_fields(line);
    if fs.len() != FIELD_COUNT {
        proof {
            assert(views(fs@).len() == fs@.len());
        }
        return Err(LoadError::FieldCount { line: index, found: fs.len() });
    }
    let mut j: usize = 0;
    while j < fs.len()
        invariant
            j <= fs.len(),
            fs@.len() == FIELD_COUNT,
            views(fs@) == fields_of(line@),
            forall|k: int| 0 <= k < j ==> is_number_text(#[trigger] fields_of(line@)[k]),
        decreases fs.len() - j,
    {
        assert(views(fs@)[j as int] == fs@[j as int]@);
        if !is_number_field(fs[j].as_slice()) {
            assert(!is_number_text(fields_of(line@)[j as int]));
            return Err(LoadError::Parse { line: index, field: j });
        }
        j = j + 1;
    }
    Ok(fs)
}

/// Splits a dataset text into the fields of its records, one record per line
/// and in the order of the lines. The first line that is not a record stops the
/// scan with its error.
pub fn scan_records(text: &[u8]) -> (r: Result<Vec<Vec<Vec<u8>>>, LoadError>)
    ensures
        match r {
            Ok(rows) => (forall|i: int| 0 <= i < lines_of(text@).len() ==> line_ok(
                #[trigger] lines_of(text@)[i],
            )) && rows@.len() == lines_of(text@).len() && forall|i: int|
                0 <= i < rows@.len() ==> views(#[trigger] rows@[i]@) == fields_of(
                    lines_of(text@)[i],
                ),
            Err(e) => exists|i: int|
                0 <= i < lines_of(text@).len() && !line_ok(#[trigger] lines_of(text@)[i])
                    && error_for(e, i, lines_of(text@)[i]) && forall|k: int|
                    0 <= k < i ==> line_ok(#[trigger] lines_of(text@)[k]),
        },
{
    let lines = split_lines(text);
    let mut rows: Vec<Vec<Vec<u8>>> = Vec::new();
    let mut i: usize = 0;
    while i < lines.len()
        invariant
            i <= lines.len(),
            views(lines@) == lines_of(text@),
            rows@.len() == i,
            forall|k: int| 0 <= k < i ==> line_ok(#[trigger] lines_of(text@)[k]),
            forall|k: int|
                0 <= k < i ==> views(#[trigger] rows@[k]@) == fields_of(lines_of(text@)[k]),
        decreases lines.len() - i,
    {
        assert(views(lines@)[i as int] == lines@[i as int]@);
        match scan_line(lines[i].as_slice(), i) {
            Ok(fs) => {
                rows.push(fs);
            },
            Err(e) => {
                return Err(e);
            },
        }
        i = i + 1;
    }
    Ok(rows)
}

} // verus!
