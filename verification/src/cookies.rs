//! Golden key persistence: the format of the cookie file.
//!
//! The file holds one line, `golden_key=<key>`. Reading and writing the file
//! is done outside the library; these functions make its contents and read
//! the key back from them.
use vstd::prelude::*;
use crate::text::{
    chars_of, concat_chars, is_white_space, slice_of, starts_with, starts_with_chars, string_of, trim,
    trim_chars, trim_end, trim_start,
};

verus! {

broadcast use vstd::string::group_string_axioms;

/// The contents of a cookie file that saves `key`.
pub open spec fn saved_contents(key: Seq<char>) -> Seq<char> {
    "golden_key="@ + key + "\n"@
}

/// The key that a cookie file with contents `data` holds: what follows the
/// `golden_key=` prefix, trimmed (`None` without the prefix).
pub open spec fn stored_key(data: Seq<char>) -> Option<Seq<char>> {
    if starts_with(data, "golden_key="@) {
        Some(trim(data.skip(11)))
    } else {
        None
    }
}

/// File-backed cookie store for the golden key.
#[derive(Debug, Clone)]
pub struct CookieStore {
    path: String,
    golden_key: Option<String>,
}

impl CookieStore {
    /// The path of the backing file.
    pub closed spec fn path_view(&self) -> Seq<char> {
        self.path@
    }

    /// The loaded key.
    pub closed spec fn key_view(&self) -> Option<Seq<char>> {
        crate::text::opt_chars(self.golden_key)
    }

    /// A store backed by the file at `path`, with no key loaded.
    pub fn new(path: &str) -> (res: CookieStore)
        ensures
            res.path_view() == path@,
            res.key_view() is None,
    {
        CookieStore { path: path.to_string(), golden_key: None }
    }

    /// The path of the backing file.
    pub fn path(&self) -> (res: &str)
        ensures
            res@ == self.path_view(),
    {
        self.path.as_str()
    }

    /// The loaded golden key, if any.
    pub fn golden_key(&self) -> (res: Option<&str>)
        ensures
            (match res {
                Some(k) => self.key_view() == Some(k@),
                None => self.key_view() is None,
            }),
    {
        match &self.golden_key {
            Some(k) => Some(k.as_str()),
            None => None,
        }
    }

    /// Takes the key from the contents of the cookie file. Returns whether
    /// the contents held one; the loaded key is unchanged when they did not.
    pub fn load_from_contents(&mut self, data: &str) -> (res: bool)
        ensures
            res == stored_key(data@) is Some,
            final(self).path_view() == old(self).path_view(),
            final(self).key_view() == (match stored_key(data@) {
                Some(k) => Some(k),
                None => old(self).key_view(),
            }),
    {
        proof {
            reveal_strlit("golden_key=");
        }
        let d = chars_of(data);
        if starts_with_chars(&d, &chars_of("golden_key=")) {
            let rest = slice_of(&d, 11, d.len());
            assert(rest@ == d@.skip(11));
            let key = trim_chars(&rest);
            self.golden_key = Some(string_of(key.as_slice()));
            true
        } else {
            false
        }
    }

    /// The contents of a cookie file that saves `golden_key`.
    pub fn contents_for(golden_key: &str) -> (res: String)
        ensures
            res@ == saved_contents(golden_key@),
    {
        let c = concat_chars(
            &concat_chars(&chars_of("golden_key="), &chars_of(golden_key)),
            &chars_of("\n"),
        );
        string_of(c.as_slice())
    }
}

proof fn lemma_trim_start_append_ws(s: Seq<char>, c: char)
    requires
        is_white_space(c),
    ensures
        trim_start(s.push(c)) == (if trim_start(s).len() == 0 {
            Seq::<char>::empty()
        } else {
            trim_start(s).push(c)
        }),
    decreases s.len(),
{
    if s.len() > 0 && is_white_space(s[0]) {
        assert(s.push(c).drop_first() =~= s.drop_first().push(c));
        lemma_trim_start_append_ws(s.drop_first(), c);
    } else if s.len() == 0 {
        assert(s.push(c).drop_first() =~= Seq::<char>::empty());
        assert(trim_start(Seq::<char>::empty()) == Seq::<char>::empty());
    }
}

/// Saving a key and loading it back gives the key, trimmed.
pub proof fn lemma_saved_key_loads(key: Seq<char>)
    ensures
        stored_key(saved_contents(key)) == Some(trim(key)),
{
    reveal_strlit("golden_key=");
    reveal_strlit("\n");
    let data = saved_contents(key);
    assert(data.subrange(0, 11) =~= "golden_key="@);
    assert(data.skip(11) =~= key.push('\n'));
    lemma_trim_start_append_ws(key, '\n');
    let t = trim_start(key);
    if t.len() == 0 {
        assert(trim_end(Seq::<char>::empty()) == Seq::<char>::empty());
    } else {
        assert(t.push('\n').drop_last() =~= t);
    }
}

} // verus!
