//! What the functions on strings do, told from their inputs and results alone.

use crate::text::{contains, join, joined, precedes, texts};
use vstd::prelude::*;

verus! {

/// `a` stands before `b` in a dictionary: behind what they have in common, `a` ends and `b` does
/// not, or `a` goes on with the smaller character.
pub open spec fn stands_before(a: Seq<char>, b: Seq<char>) -> bool {
    exists|n: int|
        #![trigger a.take(n)]
        0 <= n <= a.len() && n < b.len() && a.take(n) == b.take(n) && (n == a.len() || a[n] < b[n])
}

/// The order that strings are sorted in is that of a dictionary.
pub proof fn law_strings_are_ordered_like_a_dictionary(a: Seq<char>, b: Seq<char>)
    ensures
        precedes(a, b) <==> stands_before(a, b),
    decreases a.len(),
{
    if a.len() > 0 && b.len() > 0 && a[0] == b[0] {
        let (x, y) = (a.drop_first(), b.drop_first());
        law_strings_are_ordered_like_a_dictionary(x, y);
        if stands_before(x, y) {
            let n = choose|n: int|
                #![trigger x.take(n)]
                0 <= n <= x.len() && n < y.len() && x.take(n) == y.take(n) && (n == x.len() || x[n]
                    < y[n]);
            assert(a.take(n + 1) =~= seq![a[0]] + x.take(n));
            assert(b.take(n + 1) =~= seq![b[0]] + y.take(n));
            assert(a.take(n + 1) == b.take(n + 1));
        }
        if stands_before(a, b) {
            let n = choose|n: int|
                #![trigger a.take(n)]
                0 <= n <= a.len() && n < b.len() && a.take(n) == b.take(n) && (n == a.len() || a[n]
                    < b[n]);
            assert(x.take(n - 1) =~= a.take(n).drop_first());
            assert(y.take(n - 1) =~= b.take(n).drop_first());
            assert(x.take(n - 1) == y.take(n - 1));
        }
    } else if b.len() > 0 {
        assert(a.take(0) =~= b.take(0));
        if a.len() > 0 && stands_before(a, b) {
            let n = choose|n: int|
                #![trigger a.take(n)]
                0 <= n <= a.len() && n < b.len() && a.take(n) == b.take(n) && (n == a.len() || a[n]
                    < b[n]);
            if n > 0 {
                assert(a.take(n)[0] == a[0] && b.take(n)[0] == b[0]);
            }
        }
    }
}

/// The strings in one line, with the separator behind each but the last.
pub open spec fn in_line(strings: Seq<String>, separator: Seq<char>) -> Seq<char>
    decreases strings.len(),
{
    if strings.len() == 0 {
        seq![]
    } else if strings.len() == 1 {
        strings[0]@
    } else {
        strings[0]@ + separator + in_line(strings.drop_first(), separator)
    }
}

proof fn lemma_in_line_push(strings: Seq<String>, last: String, separator: Seq<char>)
    requires
        strings.len() > 0,
    ensures
        in_line(strings.push(last), separator) == in_line(strings, separator) + separator + last@,
    decreases strings.len(),
{
    let all = strings.push(last);
    assert(all.drop_first() =~= strings.drop_first().push(last));
    if strings.len() == 1 {
        assert(all.drop_first() =~= seq![last]);
        assert(in_line(all.drop_first(), separator) == last@);
    } else {
        lemma_in_line_push(strings.drop_first(), last, separator);
    }
    assert(in_line(all, separator) =~= in_line(strings, separator) + separator + last@);
}

/// Joined strings are the strings in one line.
pub proof fn lemma_joined_is_in_line(strings: Seq<String>, separator: Seq<char>)
    ensures
        joined(texts(strings), separator) == in_line(strings, separator),
    decreases strings.len(),
{
    if strings.len() > 1 {
        let rest = strings.drop_last();
        lemma_joined_is_in_line(rest, separator);
        lemma_in_line_push(rest, strings.last(), separator);
        assert(rest.push(strings.last()) =~= strings);
        assert(texts(strings).drop_last() =~= texts(rest));
    }
}

/// What `join` gives are the strings in one line, with the separator between neighbours.
pub proof fn law_join_puts_strings_in_line(parts: &Vec<String>, separator: &str, text: String)
    requires
        call_ensures(join, (parts, separator), text),
    ensures
        text@ == in_line(parts@, separator@),
{
    lemma_joined_is_in_line(parts@, separator@);
}

/// One more string makes the joined text longer by the separator and that string.
pub proof fn law_join_grows_by_one(
    parts: &Vec<String>,
    more: &Vec<String>,
    separator: &str,
    text: String,
    longer: String,
)
    requires
        call_ensures(join, (parts, separator), text),
        call_ensures(join, (more, separator), longer),
        more@.len() == parts@.len() + 1,
        forall|i: int| 0 <= i < parts@.len() ==> (#[trigger] more@[i])@ == parts@[i]@,
    ensures
        parts@.len() == 0 ==> text@ == Seq::<char>::empty() && longer@ == more@[0]@,
        parts@.len() > 0 ==> longer@ == text@ + separator@ + more@.last()@,
{
    assert(texts(more@).drop_last() =~= texts(parts@));
}

/// `contains` finds a name exactly if it stands somewhere in the list.
pub proof fn law_contains_finds_any_position(names: &Vec<String>, name: &String, found: bool)
    requires
        call_ensures(contains, (names, name), found),
    ensures
        found <==> exists|k: int| 0 <= k < names@.len() && (#[trigger] names@[k])@ == name@,
{
    lemma_texts_contain(names@, name@);
}

/// A text is one of `texts` exactly if some string has it.
pub proof fn lemma_texts_contain(strings: Seq<String>, text: Seq<char>)
    ensures
        texts(strings).contains(text) <==> exists|k: int|
            0 <= k < strings.len() && (#[trigger] strings[k])@ == text,
{
    if texts(strings).contains(text) {
        let k = choose|k: int| 0 <= k < texts(strings).len() && texts(strings)[k] == text;
        assert(strings[k]@ == text);
    }
    if exists|k: int| 0 <= k < strings.len() && (#[trigger] strings[k])@ == text {
        let k = choose|k: int| 0 <= k < strings.len() && (#[trigger] strings[k])@ == text;
        assert(texts(strings)[k] == text);
    }
}

/// All strings can be joined and searched.
pub proof fn law_all_strings_are_taken(strings: &Vec<String>, separator: &str, name: &String)
    ensures
        call_requires(join, (strings, separator)),
        call_requires(contains, (strings, name)),
{
}

} // verus!
