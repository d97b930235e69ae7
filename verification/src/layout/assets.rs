//! Names of the built-in layouts.
use crate::text::push_char;
use vstd::prelude::*;

verus! {

/// The codes of the bundled layouts.
pub open spec fn builtin_codes() -> Seq<Seq<char>> {
    seq![
        seq!['a', 'r'], seq!['c', 's'], seq!['d', 'e'], seq!['e', 'l'], seq!['e', 'n'],
        seq!['e', 's'], seq!['f', 'r'], seq!['h', 'e'], seq!['h', 'i'], seq!['h', 'u'],
        seq!['j', 'a'], seq!['k', 'a'], seq!['k', 'o'], seq!['n', 'o'], seq!['p', 'l'],
        seq!['p', 't'], seq!['s', 'v'], seq!['t', 'r'], seq!['u', 'k'], seq!['u', 'r'],
        seq!['z', 'h'],
    ]
}

pub open spec fn file_prefix() -> Seq<char> {
    seq!['l', 'a', 'y', 'o', 'u', 't', '-']
}

pub open spec fn file_suffix() -> Seq<char> {
    seq!['.', 't', 'o', 'm', 'l']
}

/// The file name of the layout with the given code.
pub open spec fn layout_file(code: Seq<char>) -> Seq<char> {
    file_prefix() + code + file_suffix()
}

/// The bundled layout file names, in order.
pub open spec fn builtin_names() -> Seq<Seq<char>> {
    builtin_codes().map_values(|c: Seq<char>| layout_file(c))
}

fn file_name(a: char, b: char) -> (r: String)
    ensures
        r@ == layout_file(seq![a, b]),
{
    let mut r = String::new();
    push_char(&mut r, 'l');
    push_char(&mut r, 'a');
    push_char(&mut r, 'y');
    push_char(&mut r, 'o');
    push_char(&mut r, 'u');
    push_char(&mut r, 't');
    push_char(&mut r, '-');
    push_char(&mut r, a);
    push_char(&mut r, b);
    push_char(&mut r, '.');
    push_char(&mut r, 't');
    push_char(&mut r, 'o');
    push_char(&mut r, 'm');
    push_char(&mut r, 'l');
    assert(r@ =~= layout_file(seq![a, b]));
    r
}

/// The file names of the bundled layouts, in order.
pub fn names() -> (r: Vec<String>)
    ensures
        r@.map_values(|s: String| s@) == builtin_names(),
{
    let codes: [(char, char); 21] = [
        ('a', 'r'), ('c', 's'), ('d', 'e'), ('e', 'l'), ('e', 'n'), ('e', 's'), ('f', 'r'),
        ('h', 'e'), ('h', 'i'), ('h', 'u'), ('j', 'a'), ('k', 'a'), ('k', 'o'), ('n', 'o'),
        ('p', 'l'), ('p', 't'), ('s', 'v'), ('t', 'r'), ('u', 'k'), ('u', 'r'), ('z', 'h'),
    ];
    let ghost spec_codes = builtin_codes();
    assert(spec_codes.len() == 21);
    assert(forall|i: int| 0 <= i < 21 ==> #[trigger] spec_codes[i] == seq![codes@[i].0, codes@[i].1]);
    let mut r: Vec<String> = Vec::new();
    let mut i: usize = 0;
    while i < 21
        invariant
            i <= 21,
            r@.len() == i,
            forall|j: int| 0 <= j < i ==> #[trigger] r@[j]@ == layout_file(spec_codes[j]),
            forall|j: int| 0 <= j < 21 ==> #[trigger] spec_codes[j] == seq![codes@[j].0, codes@[j].1],
            spec_codes == builtin_codes(),
        decreases 21 - i,
    {
        let (a, b) = codes[i];
        r.push(file_name(a, b));
        i = i + 1;
    }
    assert(r@.map_values(|s: String| s@) =~= builtin_names());
    r
}

} // verus!
