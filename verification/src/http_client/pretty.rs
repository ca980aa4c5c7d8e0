//! Texts spread over lines, as the pretty form of debug output has them.

use vstd::prelude::*;

verus! {

broadcast use vstd::string::group_string_axioms;

/// `String::push` adds the character at the end.
pub assume_specification[ std::string::String::push ](s: &mut std::string::String, ch: char)
    ensures
        final(s)@ == old(s)@.push(ch),
;

/// What follows `text` begins a line.
pub open spec fn at_line_start(text: Seq<char>) -> bool {
    text.len() == 0 || text.last() == '\n'
}

/// Each line of `text` with four spaces before it.
pub open spec fn indented(text: Seq<char>) -> Seq<char>
    decreases text.len(),
{
    if text.len() == 0 {
        text
    } else if at_line_start(text.drop_last()) {
        indented(text.drop_last()) + "    "@.push(text.last())
    } else {
        indented(text.drop_last()).push(text.last())
    }
}

/// A field on lines of its own, with a comma after it.
pub open spec fn field_pretty(field: Seq<char>) -> Seq<char> {
    indented(field + ",\n"@)
}

/// Adds a text with four spaces before each of its lines.
fn append_indented(text: &mut String, lines: &str)
    ensures
        final(text)@ == old(text)@ + indented(lines@),
{
    let ghost front = text@;
    let mut rest = lines.chars();
    let ghost mut i: int = 0;
    let mut starts_line = true;
    assert(lines@.skip(0) =~= lines@);
    assert(text@ =~= front + indented(lines@.take(0)));
    loop
        invariant
            0 <= i <= lines@.len(),
            vstd::std_specs::iter::IteratorSpec::obeys_prophetic_iter_laws(&rest),
            vstd::std_specs::iter::IteratorSpec::remaining(&rest) == lines@.skip(i),
            starts_line == at_line_start(lines@.take(i)),
            front == old(text)@,
            text@ == front + indented(lines@.take(i)),
        decreases lines@.len() - i,
    {
        match rest.next() {
            None => {
                assert(lines@.take(i) =~= lines@);
                return ;
            },
            Some(c) => {
                proof {
                    assert(lines@.skip(i).drop_first() =~= lines@.skip(i + 1));
                    assert(lines@.take(i + 1).drop_last() =~= lines@.take(i));
                }
                if starts_line {
                    text.append("    ");
                }
                text.push(c);
                starts_line = c == '\n';
                proof {
                    i = i + 1;
                    assert(text@ =~= front + indented(lines@.take(i)));
                }
            },
        }
    }
}

/// Adds a field on lines of its own, with a comma after it.
pub(crate) fn append_field(text: &mut String, field: &str)
    ensures
        final(text)@ == old(text)@ + field_pretty(field@),
{
    let mut lines = field.to_owned();
    lines.append(",\n");
    append_indented(text, lines.as_str());
}

/// A text is indented line by line: what stands behind the end of a line is indented by itself.
pub proof fn law_lines_are_indented_one_by_one(front: Seq<char>, back: Seq<char>)
    requires
        front.len() > 0,
        front.last() == '\n',
    ensures
        indented(front + back) == indented(front) + indented(back),
    decreases back.len(),
{
    if back.len() == 0 {
        assert(front + back =~= front);
        assert(indented(front) + indented(back) =~= indented(front));
    } else {
        law_lines_are_indented_one_by_one(front, back.drop_last());
        let whole = front + back;
        assert(whole.drop_last() =~= front + back.drop_last());
        assert(at_line_start(whole.drop_last()) == at_line_start(back.drop_last()));
        assert(indented(whole) =~= indented(front) + indented(back));
    }
}

/// A line has four spaces put before it and is else as it was. An empty text stays empty.
pub proof fn law_a_line_gets_four_spaces(line: Seq<char>)
    requires
        forall|i: int| 0 <= i < line.len() - 1 ==> #[trigger] line[i] != '\n',
    ensures
        line.len() == 0 ==> indented(line) == line,
        line.len() > 0 ==> indented(line) == seq![' ', ' ', ' ', ' '] + line,
    decreases line.len(),
{
    reveal_strlit("    ");
    assert("    "@ =~= seq![' ', ' ', ' ', ' ']);
    if line.len() > 0 {
        let front = line.drop_last();
        law_a_line_gets_four_spaces(front);
        if front.len() > 0 {
            assert(front.last() == line[front.len() - 1]);
        } else {
            assert(indented(front) =~= Seq::<char>::empty());
        }
        assert(indented(line) =~= seq![' ', ' ', ' ', ' '] + line);
    }
}

} // verus!
