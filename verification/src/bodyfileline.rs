//! One line of a bodyfile: eleven fields joined by `|`, of which only the
//! name and the four times vary.

use vstd::prelude::*;
use vstd::string::StringExecFns;
use crate::text::{
    decimal, delimiter_free, lemma_decimal_is_delimiter_free, lemma_split_append,
    lemma_split_nonempty, lemma_split_single, push_decimal_i64, push_decimal_u64, split, DELIMITER,
};

verus! {

/// `fields` joined by `sep`.
pub open spec fn joined(fields: Seq<Seq<char>>, sep: char) -> Seq<char>
    decreases fields.len(),
{
    if fields.len() == 0 {
        Seq::<char>::empty()
    } else if fields.len() == 1 {
        fields[0]
    } else {
        joined(fields.drop_last(), sep) + seq![sep] + fields.last()
    }
}

/// Splitting a joined text gives back every field after the last one that
/// holds a separator: where the last `tail` fields hold none, they are the
/// last `tail` pieces, and the pieces before them are those of the fields
/// before them.
pub proof fn lemma_split_joined_tail(fields: Seq<Seq<char>>, sep: char, tail: int)
    requires
        0 <= tail < fields.len(),
        forall|i: int| fields.len() - tail <= i < fields.len() ==> !(#[trigger] fields[i]).contains(sep),
    ensures
        split(joined(fields, sep), sep) == split(
            joined(fields.take(fields.len() - tail), sep),
            sep,
        ) + fields.skip(fields.len() - tail),
    decreases tail,
{
    let n = fields.len();
    if tail == 0 {
        assert(fields.take(n as int) =~= fields);
        assert(fields.skip(n as int) =~= Seq::<Seq<char>>::empty());
        assert(split(joined(fields, sep), sep) + Seq::<Seq<char>>::empty() =~= split(
            joined(fields, sep),
            sep,
        ));
    } else {
        let front = fields.drop_last();
        lemma_split_append(joined(front, sep), sep, fields.last());
        assert forall|i: int| front.len() - (tail - 1) <= i < front.len() implies !(
        #[trigger] front[i]).contains(sep) by {
            assert(front[i] == fields[i]);
        }
        lemma_split_joined_tail(front, sep, tail - 1);
        assert(front.take(front.len() - (tail - 1)) =~= fields.take(n - tail));
        assert(front.skip(front.len() - (tail - 1)).push(fields.last()) =~= fields.skip(n - tail));
        assert((split(joined(fields.take(n - tail), sep), sep) + front.skip(
            front.len() - (tail - 1),
        )).push(fields.last()) =~= split(joined(fields.take(n - tail), sep), sep) + fields.skip(
            n - tail,
        ));
    }
}

/// Splitting undoes joining where no field holds the separator.
pub proof fn lemma_split_joined(fields: Seq<Seq<char>>, sep: char)
    requires
        fields.len() >= 1,
        forall|i: int| 0 <= i < fields.len() ==> !(#[trigger] fields[i]).contains(sep),
    ensures
        split(joined(fields, sep), sep) == fields,
{
    lemma_split_joined_tail(fields, sep, fields.len() - 1);
    assert(fields.take(1) =~= seq![fields[0]]);
    lemma_split_single(fields[0], sep);
    assert(seq![fields[0]] + fields.skip(1) =~= fields);
}

/// What a bodyfile line holds.
pub struct BodyfileLineView {
    pub md5: Seq<char>,
    pub name: Seq<char>,
    pub inode: int,
    pub mode_as_string: Seq<char>,
    pub uid: int,
    pub gid: int,
    pub size: int,
    pub atime: int,
    pub mtime: int,
    pub ctime: int,
    pub crtime: int,
}

impl BodyfileLineView {
    /// The line for a name and one time: the placeholders of a line that
    /// stands for no file, and the time in all four places.
    pub open spec fn of(name: Seq<char>, time: int) -> BodyfileLineView {
        BodyfileLineView {
            md5: seq!['0'],
            name,
            inode: 0,
            mode_as_string: seq!['0'],
            uid: 0,
            gid: 0,
            size: 0,
            atime: time,
            mtime: time,
            ctime: time,
            crtime: time,
        }
    }

    /// The eleven fields in the order of the line.
    pub open spec fn fields(self) -> Seq<Seq<char>> {
        seq![
            self.md5,
            self.name,
            decimal(self.inode),
            self.mode_as_string,
            decimal(self.uid),
            decimal(self.gid),
            decimal(self.size),
            decimal(self.atime),
            decimal(self.mtime),
            decimal(self.ctime),
            decimal(self.crtime),
        ]
    }

    /// The text of the line.
    pub open spec fn text(self) -> Seq<char> {
        joined(self.fields(), DELIMITER)
    }

    /// The pieces of the line's text between delimiters.
    pub open spec fn pieces(self) -> Seq<Seq<char>> {
        split(self.text(), DELIMITER)
    }
}

/// The last four pieces of a line are its four times, whatever the name
/// holds. Where neither the name nor the two placeholders hold a delimiter,
/// the line has exactly eleven pieces: its fields.
pub proof fn lemma_line_pieces(line: BodyfileLineView)
    ensures
        line.pieces().len() >= 11,
        line.pieces().skip(line.pieces().len() - 4) == seq![
            decimal(line.atime),
            decimal(line.mtime),
            decimal(line.ctime),
            decimal(line.crtime),
        ],
        delimiter_free(line.md5) && delimiter_free(line.name) && delimiter_free(
            line.mode_as_string,
        ) ==> line.pieces() == line.fields(),
{
    let fields = line.fields();
    lemma_decimal_is_delimiter_free(line.inode);
    lemma_decimal_is_delimiter_free(line.uid);
    lemma_decimal_is_delimiter_free(line.gid);
    lemma_decimal_is_delimiter_free(line.size);
    lemma_decimal_is_delimiter_free(line.atime);
    lemma_decimal_is_delimiter_free(line.mtime);
    lemma_decimal_is_delimiter_free(line.ctime);
    lemma_decimal_is_delimiter_free(line.crtime);
    // the seven numbers after the mode are pieces of their own
    lemma_split_joined_tail(fields, DELIMITER, 7);
    let front = split(joined(fields.take(4), DELIMITER), DELIMITER);
    assert(line.pieces() == front + fields.skip(4));
    // the four fields before them make four pieces or more
    lemma_split_count(fields.take(4), DELIMITER);
    assert(line.pieces().skip(line.pieces().len() - 4) =~= fields.skip(7));
    assert(fields.skip(7) =~= seq![
        decimal(line.atime),
        decimal(line.mtime),
        decimal(line.ctime),
        decimal(line.crtime),
    ]);
    if delimiter_free(line.md5) && delimiter_free(line.name) && delimiter_free(
        line.mode_as_string,
    ) {
        lemma_split_joined(fields, DELIMITER);
    }
}

/// A joined text has at least as many pieces as it has fields.
pub proof fn lemma_split_count(fields: Seq<Seq<char>>, sep: char)
    requires
        fields.len() >= 1,
    ensures
        split(joined(fields, sep), sep).len() >= fields.len(),
    decreases fields.len(),
{
    if fields.len() == 1 {
        lemma_split_nonempty(fields[0], sep);
    } else {
        let front = fields.drop_last();
        lemma_split_count(front, sep);
        lemma_split_grows(joined(front, sep) + seq![sep], sep, fields.last());
        lemma_split_append(joined(front, sep), sep, Seq::<char>::empty());
        assert(joined(front, sep) + seq![sep] + Seq::<char>::empty() =~= joined(front, sep) + seq![
            sep,
        ]);
    }
}

/// Appending text never takes a piece away.
pub proof fn lemma_split_grows(head: Seq<char>, sep: char, tail: Seq<char>)
    ensures
        split(head + tail, sep).len() >= split(head, sep).len(),
    decreases tail.len(),
{
    if tail.len() == 0 {
        assert(head + tail =~= head);
    } else {
        lemma_split_grows(head, sep, tail.drop_last());
        assert((head + tail).drop_last() =~= head + tail.drop_last());
        lemma_split_nonempty(head + tail.drop_last(), sep);
    }
}

/// One line of a bodyfile.
#[derive(Debug)]
pub struct BodyfileLine {
    md5: String,
    name: String,
    inode: u32,
    mode_as_string: String,
    uid: u32,
    gid: u32,
    size: u32,
    atime: i64,
    mtime: i64,
    ctime: i64,
    crtime: i64,
}

impl View for BodyfileLine {
    type V = BodyfileLineView;

    closed spec fn view(&self) -> BodyfileLineView {
        BodyfileLineView {
            md5: self.md5@,
            name: self.name@,
            inode: self.inode as int,
            mode_as_string: self.mode_as_string@,
            uid: self.uid as int,
            gid: self.gid as int,
            size: self.size as int,
            atime: self.atime as int,
            mtime: self.mtime as int,
            ctime: self.ctime as int,
            crtime: self.crtime as int,
        }
    }
}

impl BodyfileLine {
    /// The line for `name` whose four times are all `ctime`; the other
    /// fields hold the placeholders of a line that stands for no file.
    pub fn new(name: String, ctime: i64) -> (r: Self)
        ensures
            r@ == BodyfileLineView::of(name@, ctime as int),
    {
        let md5 = "0".to_owned();
        let mode_as_string = "0".to_owned();
        proof {
            reveal_strlit("0");
            assert(md5@ =~= seq!['0']);
            assert(mode_as_string@ =~= seq!['0']);
        }
        Self {
            md5,
            name,
            inode: 0,
            mode_as_string,
            uid: 0,
            gid: 0,
            size: 0,
            atime: ctime,
            mtime: ctime,
            ctime,
            crtime: ctime,
        }
    }

    /// The name field.
    pub fn name(&self) -> (r: &str)
        ensures
            r@ == self@.name,
    {
        self.name.as_str()
    }

    /// The time that the line carries in its last field.
    pub fn crtime(&self) -> (r: i64)
        ensures
            r == self@.crtime,
    {
        self.crtime
    }

    /// The text of the line: the eleven fields joined by `|`, numbers in
    /// decimal. Its last four pieces are the four times; it has exactly
    /// eleven pieces where the name holds no delimiter.
    pub fn render(&self) -> (r: String)
        ensures
            r@ == self@.text(),
    {
        let mut out = String::new();
        out.append(self.md5.as_str());
        out.push(DELIMITER);
        out.append(self.name.as_str());
        out.push(DELIMITER);
        push_decimal_u64(&mut out, self.inode as u64);
        out.push(DELIMITER);
        out.append(self.mode_as_string.as_str());
        out.push(DELIMITER);
        push_decimal_u64(&mut out, self.uid as u64);
        out.push(DELIMITER);
        push_decimal_u64(&mut out, self.gid as u64);
        out.push(DELIMITER);
        push_decimal_u64(&mut out, self.size as u64);
        out.push(DELIMITER);
        push_decimal_i64(&mut out, self.atime);
        out.push(DELIMITER);
        push_decimal_i64(&mut out, self.mtime);
        out.push(DELIMITER);
        push_decimal_i64(&mut out, self.ctime);
        out.push(DELIMITER);
        push_decimal_i64(&mut out, self.crtime);
        proof {
            lemma_joined_eleven(self@.fields(), DELIMITER);
            assert(out@ =~= self@.text());
        }
        out
    }
}

/// Eleven fields joined, written out.
pub proof fn lemma_joined_eleven(f: Seq<Seq<char>>, sep: char)
    requires
        f.len() == 11,
    ensures
        joined(f, sep) == f[0] + seq![sep] + f[1] + seq![sep] + f[2] + seq![sep] + f[3] + seq![sep]
            + f[4] + seq![sep] + f[5] + seq![sep] + f[6] + seq![sep] + f[7] + seq![sep] + f[8]
            + seq![sep] + f[9] + seq![sep] + f[10],
{
    reveal_with_fuel(joined, 12);
    let f10 = f.drop_last();
    let f9 = f10.drop_last();
    let f8 = f9.drop_last();
    let f7 = f8.drop_last();
    let f6 = f7.drop_last();
    let f5 = f6.drop_last();
    let f4 = f5.drop_last();
    let f3 = f4.drop_last();
    let f2 = f3.drop_last();
    let f1 = f2.drop_last();
    assert(joined(f1, sep) == f[0]);
    assert(joined(f2, sep) == f[0] + seq![sep] + f[1]);
    assert(joined(f3, sep) == joined(f2, sep) + seq![sep] + f[2]);
    assert(joined(f4, sep) == joined(f3, sep) + seq![sep] + f[3]);
    assert(joined(f5, sep) == joined(f4, sep) + seq![sep] + f[4]);
    assert(joined(f6, sep) == joined(f5, sep) + seq![sep] + f[5]);
    assert(joined(f7, sep) == joined(f6, sep) + seq![sep] + f[6]);
    assert(joined(f8, sep) == joined(f7, sep) + seq![sep] + f[7]);
    assert(joined(f9, sep) == joined(f8, sep) + seq![sep] + f[8]);
    assert(joined(f10, sep) == joined(f9, sep) + seq![sep] + f[9]);
    assert(joined(f, sep) == joined(f10, sep) + seq![sep] + f[10]);
}

} // verus!
