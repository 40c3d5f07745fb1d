//! Lines of the log: how grave, under which target, what is said, and the named values that go with it.
use vstd::prelude::*;

use crate::text;

verus! {

/// How grave a line of the log is.
#[derive(Debug, Clone, Copy, PartialEq, Eq, Structural)]
pub enum Level {
    Debug,
    Info,
    Warn,
    Error,
}

/// A line of the log.
#[derive(Debug, PartialEq, Eq)]
pub struct LogLine {
    pub level: Level,
    /// What the line is filed under, where that is not the place it comes from.
    pub target: Option<String>,
    pub message: String,
    /// The named values, in order.
    pub fields: Vec<(String, String)>,
}

/// What a line is.
pub struct LineModel {
    pub level: Level,
    pub target: Option<Seq<char>>,
    pub message: Seq<char>,
    pub fields: Seq<(Seq<char>, Seq<char>)>,
}

/// What the named values are.
pub open spec fn field_views(list: Seq<(String, String)>) -> Seq<(Seq<char>, Seq<char>)> {
    Seq::new(list.len(), |i: int| (list[i].0@, list[i].1@))
}

impl View for LogLine {
    type V = LineModel;

    open spec fn view(&self) -> LineModel {
        LineModel {
            level: self.level,
            target: text::opt_view(self.target),
            message: self.message@,
            fields: field_views(self.fields@),
        }
    }
}

/// What a list of lines is.
pub open spec fn line_views(list: Seq<LogLine>) -> Seq<LineModel> {
    Seq::new(list.len(), |i: int| list[i]@)
}

/// A line with no values.
pub open spec fn plain(level: Level, message: Seq<char>) -> LineModel {
    LineModel { level, target: None, message, fields: Seq::empty() }
}

impl LineModel {
    /// The line with one more value.
    pub open spec fn with(self, name: Seq<char>, value: Seq<char>) -> LineModel {
        LineModel { fields: self.fields.push((name, value)), ..self }
    }

    /// The line, filed under `target`.
    pub open spec fn under(self, target: Seq<char>) -> LineModel {
        LineModel { target: Some(target), ..self }
    }

    /// Whether one of the values is `value` under `name`.
    pub open spec fn tells(self, name: Seq<char>, value: Seq<char>) -> bool {
        self.fields.contains((name, value))
    }
}

/// The name of a level.
pub open spec fn level_name(l: Level) -> Seq<char> {
    match l {
        Level::Debug => "DEBUG"@,
        Level::Info => "INFO"@,
        Level::Warn => "WARN"@,
        Level::Error => "ERROR"@,
    }
}

/// The values as they are written, each behind a space.
pub open spec fn fields_text(fields: Seq<(Seq<char>, Seq<char>)>) -> Seq<char>
    decreases fields.len(),
{
    if fields.len() == 0 {
        Seq::empty()
    } else {
        fields_text(fields.drop_last()) + " "@ + fields.last().0 + "="@ + fields.last().1
    }
}

/// The line as it is written.
pub open spec fn line_text(l: LineModel) -> Seq<char> {
    level_name(l.level) + " "@ + l.message + fields_text(l.fields)
}

impl LogLine {
    /// A line with no values.
    pub fn new(level: Level, message: &str) -> (r: Self)
        ensures
            r@ == plain(level, message@),
    {
        let r = LogLine { level, target: None, message: message.to_owned(), fields: Vec::new() };
        proof {
            assert(r@.fields =~= Seq::empty());
        }
        r
    }

    /// The line with one more value.
    pub fn with(self, name: &str, value: &str) -> (r: Self)
        ensures
            r@ == self@.with(name@, value@),
    {
        let mut fields = self.fields;
        let ghost before = fields@;
        fields.push((name.to_owned(), value.to_owned()));
        proof {
            assert(field_views(fields@) =~= field_views(before).push((name@, value@)));
        }
        LogLine { level: self.level, target: self.target, message: self.message, fields }
    }

    /// The line, filed under `target`.
    pub fn under(self, target: &str) -> (r: Self)
        ensures
            r@ == self@.under(target@),
    {
        LogLine {
            level: self.level,
            target: Some(target.to_owned()),
            message: self.message,
            fields: self.fields,
        }
    }

    /// The line with one more value, a number.
    pub fn with_number(self, name: &str, value: u64) -> (r: Self)
        ensures
            r@ == self@.with(name@, text::decimal(value as nat)),
    {
        self.with(name, text::number(value).as_str())
    }

    /// The line as it is written.
    pub fn to_text(&self) -> (r: String)
        ensures
            r@ == line_text(self@),
    {
        let mut out = match self.level {
            Level::Debug => "DEBUG".to_owned(),
            Level::Info => "INFO".to_owned(),
            Level::Warn => "WARN".to_owned(),
            Level::Error => "ERROR".to_owned(),
        };
        out.append(" ");
        out.append(self.message.as_str());
        let ghost head = out@;
        let ghost all = field_views(self.fields@);
        let mut i: usize = 0;
        proof {
            assert(fields_text(all.take(0)) =~= Seq::empty());
            assert(out@ =~= head + fields_text(all.take(0)));
        }
        while i < self.fields.len()
            invariant
                i <= self.fields@.len(),
                all == field_views(self.fields@),
                out@ == head + fields_text(all.take(i as int)),
            decreases self.fields@.len() - i,
        {
            let ghost part = all.take(i + 1);
            out.append(" ");
            out.append(self.fields[i].0.as_str());
            out.append("=");
            out.append(self.fields[i].1.as_str());
            proof {
                assert(part.drop_last() =~= all.take(i as int));
                assert(part.last() == all[i as int]);
                assert(out@ =~= head + fields_text(part));
            }
            i += 1;
        }
        proof {
            assert(all.take(all.len() as int) =~= all);
        }
        out
    }
}

/// **Law: a line is written with all that it tells.** It begins with its level; what it says and every value
/// under its name stand in it, in their order.
pub proof fn law_a_line_tells_all_of_it(l: LineModel, name: Seq<char>, value: Seq<char>)
    ensures
        text::starts(line_text(l), level_name(l.level) + " "@ + l.message),
        text::starts(line_text(l.with(name, value)), line_text(l)),
        line_text(l.with(name, value)) == line_text(l) + " "@ + name + "="@ + value,
        line_text(plain(l.level, l.message)) == level_name(l.level) + " "@ + l.message,
        l.with(name, value).level == l.level,
        l.with(name, value).message == l.message,
        l.with(name, value).target == l.target,
        l.with(name, value).tells(name, value),
        l.under(name).target == Some(name),
        l.under(name).message == l.message && l.under(name).fields == l.fields && l.under(name).level == l.level,
        plain(l.level, l.message).level == l.level && plain(l.level, l.message).message == l.message,
        plain(l.level, l.message).fields.len() == 0 && plain(l.level, l.message).target is None,
{
    let head = level_name(l.level) + " "@ + l.message;
    let w = l.with(name, value);
    assert(w.fields.drop_last() =~= l.fields);
    assert(w.fields.last() == (name, value));
    assert(w.fields[w.fields.len() - 1] == (name, value));
    text::law_a_longer_text_holds_its_parts(head, fields_text(l.fields), head);
    lemma_behind(head, fields_text(l.fields), " "@, name, "="@, value);
    let all = line_text(l);
    text::law_a_longer_text_holds_its_parts(all, " "@, all);
    text::law_a_longer_text_holds_its_parts(all + " "@, name, all);
    text::law_a_longer_text_holds_its_parts(all + " "@ + name, "="@, all);
    text::law_a_longer_text_holds_its_parts(all + " "@ + name + "="@, value, all);
    assert(head + Seq::<char>::empty() =~= head);
}

proof fn lemma_behind(h: Seq<char>, a: Seq<char>, b: Seq<char>, c: Seq<char>, d: Seq<char>, e: Seq<char>)
    ensures
        h + (a + b + c + d + e) == h + a + b + c + d + e,
{
    assert(h + (a + b) =~= h + a + b);
    assert(h + (a + b + c) =~= h + (a + b) + c);
    assert(h + (a + b + c + d) =~= h + (a + b + c) + d);
    assert(h + (a + b + c + d + e) =~= h + (a + b + c + d) + e);
}

/// **Law: the levels are told apart by name.**
pub proof fn law_levels_have_names()
    ensures
        level_name(Level::Debug) == "DEBUG"@,
        level_name(Level::Info) == "INFO"@,
        level_name(Level::Warn) == "WARN"@,
        level_name(Level::Error) == "ERROR"@,
{
}

/// **Law: a line is seen whole.** Its level, its target, what it says, and each value under its name.
pub proof fn law_a_line_is_seen_whole(l: LogLine, i: int, all: Seq<LogLine>, j: int)
    requires
        0 <= i < l.fields@.len(),
        0 <= j < all.len(),
    ensures
        l@.level == l.level,
        l@.message == l.message@,
        l@.target is Some <==> l.target is Some,
        l.target matches Some(t) ==> l@.target == Some(t@),
        l@.fields.len() == l.fields@.len(),
        l@.fields[i].0 == l.fields@[i].0@,
        l@.fields[i].1 == l.fields@[i].1@,
        line_views(all).len() == all.len(),
        line_views(all)[j] == all[j]@,
{
}

} // verus!
