//! Menu labels: each label is padded to the width of the longest and followed
//! by a separator and, where it has one, its keyboard shortcut.
use vstd::prelude::*;

verus! {

/// `t` padded with spaces to `width` characters; a longer text is kept whole.
pub open spec fn padded(t: Seq<char>, width: nat) -> Seq<char> {
    if t.len() >= width {
        t
    } else {
        t + Seq::new((width - t.len()) as nat, |i: int| ' ')
    }
}

/// A menu line: the padded label, a vertical bar, and the shortcut in
/// brackets when there is one.
pub open spec fn menu_line(t: Seq<char>, keys: Option<String>, width: nat) -> Seq<char> {
    match keys {
        Some(k) => padded(t, width) + " \u{2502} ["@ + k@ + "]"@,
        None => padded(t, width) + " \u{2502}"@,
    }
}

/// The length in UTF-8 bytes of the longest label (as a `usize`).
pub open spec fn widest(items: Seq<(String, Option<String>)>) -> nat
    decreases items.len(),
{
    if items.len() == 0 {
        0
    } else {
        let w = widest(items.drop_last());
        let l = items.last().0@;
        let b = (vstd::utf8::encode_utf8(l).len() as usize) as nat;
        if b > w { b } else { w }
    }
}

fn pad_to(t: &String, width: usize) -> (r: String)
    ensures
        r@ == padded(t@, width as nat),
{
    let mut r = t.clone();
    let mut n = t.as_str().unicode_len();
    while n < width
        invariant
            n >= t@.len(),
            n <= width || n == t@.len(),
            n == r@.len(),
            r@ == t@ + Seq::new((n - t@.len()) as nat, |i: int| ' '),
        decreases width - n,
    {
        proof {
            reveal_strlit(" ");
        }
        r.append(" ");
        n = n + 1;
        assert(r@ =~= t@ + Seq::new((n - t@.len()) as nat, |i: int| ' '));
    }
    proof {
        assert(Seq::new((n - t@.len()) as nat, |i: int| ' ').len() == n - t@.len());
        if t@.len() >= width {
            assert(r@ =~= t@);
        }
    }
    r
}

/// Lays out menu labels: every label is padded to the byte length of the
/// longest and followed by ` │ [shortcut]`, or ` │` when it has none. An
/// empty list is left as it is.
pub fn pad_menu_text(text: &mut Vec<(String, Option<String>)>)
    ensures
        final(text)@.len() == old(text)@.len(),
        forall|i: int| 0 <= i < old(text)@.len() ==> {
            &&& (#[trigger] final(text)@[i]).0@ == menu_line(old(text)@[i].0@, old(text)@[i].1, widest(old(text)@))
            &&& final(text)@[i].1 == old(text)@[i].1
        },
{
    let ghost items = text@;
    let n = text.len();
    let mut max_width: usize = 0;
    for i in 0..n
        invariant
            n == items.len(),
            items == text@,
            max_width == widest(items.take(i as int)),
    {
        proof {
            assert(items.take(i + 1).drop_last() =~= items.take(i as int));
            assert(items.take(i + 1).last() == items[i as int]);
        }
        let l = text[i].0.as_str().len();
        if l > max_width {
            max_width = l;
        }
    }
    assert(items.take(n as int) =~= items);
    let mut out: Vec<(String, Option<String>)> = Vec::new();
    for i in 0..n
        invariant
            n == items.len(),
            items == text@,
            max_width == widest(items),
            out@.len() == i,
            forall|j: int| 0 <= j < i ==> {
                &&& (#[trigger] out@[j]).0@ == menu_line(items[j].0@, items[j].1, widest(items))
                &&& out@[j].1 == items[j].1
            },
    {
        let (t, keys) = (&text[i].0, &text[i].1);
        let mut line = pad_to(t, max_width);
        match keys {
            Some(k) => {
                line.append(" \u{2502} [");
                line.append(k.as_str());
                line.append("]");
            },
            None => {
                line.append(" \u{2502}");
            },
        }
        let copy = match keys {
            Some(k) => Some(k.clone()),
            None => None,
        };
        out.push((line, copy));
    }
    *text = out;
}

} // verus!
