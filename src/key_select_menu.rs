use vstd::prelude::*;

verus! {

/// What a key-select menu is for.
pub enum KeySelectMenuType {
    /// Inserting a snippet.
    Snippets,
    /// Opening the given word in a viewer.
    OpenWordIn(Vec<char>),
}

/// A menu that waits for one character: it lists each key with what it does.
pub struct KeySelectMenu {
    pub options: Vec<(char, Vec<char>)>,
    pub menu_type: KeySelectMenuType,
}

/// `i` is the first position in `s` whose key is `c`, or `s.len()` where no
/// key is `c`.
pub open spec fn is_first_key<T>(s: Seq<(char, T)>, c: char, i: int) -> bool {
    0 <= i <= s.len() && (i < s.len() ==> s[i].0 == c) && forall|j: int|
        0 <= j < i ==> s[j].0 != c
}

/// No two entries of `s` share a key.
pub open spec fn keys_unique<T>(s: Seq<(char, T)>) -> bool {
    forall|i: int, j: int| 0 <= i < j < s.len() ==> #[trigger] s[i].0 != #[trigger] s[j].0
}

pub open spec fn key_index<T>(s: Seq<(char, T)>, c: char) -> int {
    choose|i: int| is_first_key(s, c, i)
}

/// Position of the first entry of `s` under key `c`, or its length.
pub fn find_key<T>(s: &Vec<(char, T)>, c: char) -> (r: usize)
    ensures
        r == key_index(s@, c),
        r <= s@.len(),
{
    let mut i: usize = 0;
    while i < s.len() && s[i].0 != c
        invariant
            i <= s@.len(),
            forall|j: int| 0 <= j < i ==> s@[j].0 != c,
        decreases s@.len() - i,
    {
        i += 1;
    }
    proof {
        assert(is_first_key(s@, c, i as int));
        let k = key_index(s@, c);
        if k < i {
            assert(s@[k].0 != c);
        } else if i < k {
            assert(s@[i as int].0 != c);
        }
    }
    i
}

} // verus!
