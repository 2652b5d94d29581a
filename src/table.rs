//! Splitting a comma-separated table into the text of its fields.
//!
//! Lines end at `\n`; a `\r` just before it is not part of the line, and a
//! final line ending is optional. The first line is a header and is dropped.
//! Fields are separated by `,`, with no quoting.
use vstd::prelude::*;
use crate::text::{chars_of, push_char};

verus! {

/// `l` without one trailing `\r`.
pub open spec fn strip_cr(l: Seq<char>) -> Seq<char> {
    if l.len() > 0 && l.last() == '\r' {
        l.drop_last()
    } else {
        l
    }
}

/// The lines ended in `s` so far, and the text of the line still open.
pub open spec fn scan_lines(s: Seq<char>) -> (Seq<Seq<char>>, Seq<char>)
    decreases s.len(),
{
    if s.len() == 0 {
        (seq![], seq![])
    } else {
        let (done, open) = scan_lines(s.drop_last());
        if s.last() == '\n' {
            (done.push(strip_cr(open)), seq![])
        } else {
            (done, open.push(s.last()))
        }
    }
}

/// The lines of `s`: those ended by `\n`, and a last one without a line end
/// unless it is empty.
pub open spec fn lines_of(s: Seq<char>) -> Seq<Seq<char>> {
    let (done, open) = scan_lines(s);
    if open.len() == 0 {
        done
    } else {
        done.push(open)
    }
}

/// The comma-separated fields of `line`; there is always at least one.
pub open spec fn fields_of(line: Seq<char>) -> Seq<Seq<char>>
    decreases line.len(),
{
    if line.len() == 0 {
        seq![seq![]]
    } else {
        let f = fields_of(line.drop_last());
        if line.last() == ',' {
            f.push(seq![])
        } else {
            f.update(f.len() - 1, f.last().push(line.last()))
        }
    }
}

/// The lines of `s` after the header line.
pub open spec fn data_lines(s: Seq<char>) -> Seq<Seq<char>> {
    if lines_of(s).len() == 0 {
        seq![]
    } else {
        lines_of(s).drop_first()
    }
}

/// The fields of every data line of `s`, in line order.
pub open spec fn table_fields(s: Seq<char>) -> Seq<Seq<Seq<char>>> {
    data_lines(s).map_values(|l: Seq<char>| fields_of(l))
}

fn lines(cs: &Vec<char>) -> (r: Vec<Vec<char>>)
    ensures
        r.deep_view() == lines_of(cs@),
{
    let mut done: Vec<Vec<char>> = Vec::new();
    let mut open: Vec<char> = Vec::new();
    let mut i: usize = 0;
    while i < cs.len()
        invariant
            i <= cs@.len(),
            (done.deep_view(), open@) == scan_lines(cs@.take(i as int)),
        decreases cs@.len() - i,
    {
        let c = cs[i];
        assert(cs@.take(i + 1).drop_last() =~= cs@.take(i as int));
        assert(cs@.take(i + 1).last() == c);
        if c == '\n' {
            if open.len() > 0 && open[open.len() - 1] == '\r' {
                open.pop();
            }
            let ghost before = done.deep_view();
            let ghost line = open@;
            assert(open.deep_view() =~= line);
            done.push(open);
            open = Vec::new();
            assert(done.deep_view() =~= before.push(line));
            assert(open@ =~= Seq::<char>::empty());
        } else {
            let ghost before = done.deep_view();
            open.push(c);
            assert(done.deep_view() =~= before);
        }
        i = i + 1;
    }
    assert(cs@.take(i as int) =~= cs@);
    if open.len() > 0 {
        let ghost before = done.deep_view();
        let ghost line = open@;
        assert(open.deep_view() =~= line);
        done.push(open);
        assert(done.deep_view() =~= before.push(line));
    }
    done
}

fn fields(line: &Vec<char>) -> (r: Vec<String>)
    ensures
        r.deep_view() == fields_of(line@),
{
    let mut done: Vec<String> = Vec::new();
    let mut open = String::new();
    let mut i: usize = 0;
    assert(fields_of(line@.take(0)) =~= seq![Seq::<char>::empty()]);
    while i < line.len()
        invariant
            i <= line@.len(),
            done.deep_view().push(open@) == fields_of(line@.take(i as int)),
        decreases line@.len() - i,
    {
        let c = line[i];
        assert(line@.take(i + 1).drop_last() =~= line@.take(i as int));
        assert(line@.take(i + 1).last() == c);
        let ghost before = done.deep_view();
        let ghost cur = open@;
        if c == ',' {
            done.push(open);
            open = String::new();
            assert(done.deep_view() =~= before.push(cur));
            assert(done.deep_view().push(open@) =~= before.push(cur).push(seq![]));
        } else {
            push_char(&mut open, c);
            assert(done.deep_view() =~= before);
            assert(done.deep_view().push(open@) =~= before.push(cur).update(
                before.len() as int,
                cur.push(c),
            ));
        }
        i = i + 1;
    }
    assert(line@.take(i as int) =~= line@);
    let ghost before = done.deep_view();
    let ghost cur = open@;
    done.push(open);
    assert(done.deep_view() =~= before.push(cur));
    done
}

/// The fields of each line of `contents` after the header, as text.
pub fn table_rows(contents: &str) -> (r: Vec<Vec<String>>)
    ensures
        r.deep_view() == table_fields(contents@),
{
    let cs = chars_of(contents);
    let ls = lines(&cs);
    let mut rows: Vec<Vec<String>> = Vec::new();
    if ls.len() == 0 {
        assert(rows.deep_view() =~= table_fields(contents@));
        return rows;
    }
    let ghost data = ls.deep_view().drop_first();
    assert(data =~= data_lines(contents@));
    let mut i: usize = 1;
    while i < ls.len()
        invariant
            1 <= i <= ls@.len(),
            ls.deep_view() == lines_of(contents@),
            data == ls.deep_view().drop_first(),
            rows.deep_view() == data.take(i - 1).map_values(|l: Seq<char>| fields_of(l)),
        decreases ls@.len() - i,
    {
        let ghost before = rows.deep_view();
        let f = fields(&ls[i]);
        assert(ls.deep_view()[i as int] == ls[i as int]@);
        rows.push(f);
        assert(rows.deep_view() =~= before.push(f.deep_view()));
        assert(data.take(i as int).map_values(|l: Seq<char>| fields_of(l)) =~= before.push(
            fields_of(data[i - 1]),
        ));
        i = i + 1;
    }
    assert(data.take(i - 1) =~= data);
    rows
}

} // verus!
