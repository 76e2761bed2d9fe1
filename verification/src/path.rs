//! Filesystem paths modeled as their list of name components. The watcher
//! and the pipeline only ever read component names, prefixes, and the final
//! name's stem and extension, so a path is kept as exactly that list; the
//! surrounding program converts to and from the platform's path type.

use crate::text;
use vstd::prelude::*;
use vstd::string::StrSliceExecFns;
use vstd::string::StringExecFns;

verus! {

/// A filesystem path: the sequence of its name components, root to leaf.
#[derive(Debug)]
pub struct FilePath {
    pub components: Vec<String>,
}

impl View for FilePath {
    type V = Seq<Seq<char>>;

    open spec fn view(&self) -> Seq<Seq<char>> {
        self.components.deep_view()
    }
}

impl DeepView for FilePath {
    type V = Seq<Seq<char>>;

    open spec fn deep_view(&self) -> Seq<Seq<char>> {
        self.view()
    }
}

/// Splitting a path string on '/' separators, dropping empty components;
/// `cur` is the partial component read so far.
pub open spec fn split_path_acc(s: Seq<char>, cur: Seq<char>) -> Seq<Seq<char>>
    decreases s.len(),
{
    if s.len() == 0 {
        if cur.len() == 0 {
            Seq::empty()
        } else {
            seq![cur]
        }
    } else if s[0] == '/' {
        if cur.len() == 0 {
            split_path_acc(s.drop_first(), Seq::empty())
        } else {
            seq![cur] + split_path_acc(s.drop_first(), Seq::empty())
        }
    } else {
        split_path_acc(s.drop_first(), cur.push(s[0]))
    }
}

/// The components of a path string: the non-empty segments between '/'
/// separators.
pub open spec fn split_path(s: Seq<char>) -> Seq<Seq<char>> {
    split_path_acc(s, Seq::empty())
}

/// Index of the last '.' in a name, or -1 if it has none.
pub open spec fn last_dot(name: Seq<char>) -> int
    decreases name.len(),
{
    if name.len() == 0 {
        -1
    } else if name[name.len() - 1] == '.' {
        name.len() - 1
    } else {
        last_dot(name.drop_last())
    }
}

/// A name splits at its last '.' into stem and extension, but a leading '.'
/// (a dotfile with no other dot) belongs to the stem and yields no extension.
pub open spec fn name_stem(name: Seq<char>) -> Seq<char> {
    if last_dot(name) > 0 {
        name.subrange(0, last_dot(name))
    } else {
        name
    }
}

/// The extension of a name, the part after its last '.', if any; a leading
/// '.' alone does not start an extension.
pub open spec fn name_extension(name: Seq<char>) -> Option<Seq<char>> {
    if last_dot(name) > 0 {
        Some(name.subrange(last_dot(name) + 1, name.len() as int))
    } else {
        None
    }
}

/// What `last_dot` says about the characters of the name.
pub proof fn lemma_last_dot(name: Seq<char>)
    ensures
        -1 <= last_dot(name) < name.len(),
        last_dot(name) == -1 ==> forall|i: int| 0 <= i < name.len() ==> name[i] != '.',
        last_dot(name) >= 0 ==> name[last_dot(name)] == '.',
        last_dot(name) >= 0 ==> forall|i: int|
            last_dot(name) < i < name.len() ==> name[i] != '.',
    decreases name.len(),
{
    if name.len() == 0 {
    } else if name[name.len() - 1] == '.' {
    } else {
        lemma_last_dot(name.drop_last());
        assert forall|i: int| 0 <= i < name.len() - 1 implies name.drop_last()[i] == name[i] by {}
    }
}

impl Clone for FilePath {
    fn clone(&self) -> (r: Self)
        ensures
            r@ == self@,
    {
        let components = self.components.clone();
        proof {
            assert forall|i: int| 0 <= i < self.components@.len() implies components@[i]
                == self.components@[i] by {
                assert(cloned::<String>(self.components@[i], components@[i]));
            }
            assert(components@ =~= self.components@);
        }
        FilePath { components }
    }
}

impl FilePath {
    /// Parse a path string into its components: the non-empty segments
    /// between '/' separators.
    pub fn from_string(s: &str) -> (r: FilePath)
        ensures
            r@ == split_path(s@),
    {
        let slen = s.unicode_len();
        let mut comps: Vec<String> = Vec::new();
        let mut start: usize = 0;
        let mut i: usize = 0;
        proof {
            assert(s@.subrange(0, slen as int) =~= s@);
            assert(comps.deep_view() =~= Seq::<Seq<char>>::empty());
            assert(s@.subrange(0, 0) =~= Seq::<char>::empty());
        }
        while i < slen
            invariant
                start <= i <= slen,
                slen == s@.len(),
                comps.deep_view() + split_path_acc(
                    s@.subrange(i as int, slen as int),
                    s@.subrange(start as int, i as int),
                ) == split_path(s@),
            decreases slen - i,
        {
            let ghost rest = s@.subrange(i as int, slen as int);
            let ghost cur = s@.subrange(start as int, i as int);
            let ghost dv0 = comps.deep_view();
            let c = s.get_char(i);
            proof {
                assert(rest[0] == s@[i as int]);
                assert(rest.drop_first() =~= s@.subrange(i + 1, slen as int));
            }
            if c == '/' {
                if start < i {
                    let piece = String::from_str(s.substring_char(start, i));
                    comps.push(piece);
                    proof {
                        assert(cur.len() > 0);
                        assert(split_path_acc(rest, cur) == seq![cur] + split_path_acc(
                            rest.drop_first(),
                            Seq::empty(),
                        ));
                        assert(comps.deep_view() =~= dv0 + seq![cur]);
                        assert((dv0 + seq![cur]) + split_path_acc(
                            rest.drop_first(),
                            Seq::empty(),
                        ) =~= dv0 + (seq![cur] + split_path_acc(rest.drop_first(), Seq::empty())));
                    }
                } else {
                    proof {
                        assert(cur =~= Seq::<char>::empty());
                    }
                }
                start = i + 1;
            } else {
                proof {
                    assert(split_path_acc(rest, cur) == split_path_acc(
                        rest.drop_first(),
                        cur.push(s@[i as int]),
                    ));
                }
            }
            i = i + 1;
            proof {
                if c == '/' {
                    assert(s@.subrange(start as int, i as int) =~= Seq::<char>::empty());
                } else {
                    assert(s@.subrange(start as int, i as int) =~= cur.push(s@[i - 1]));
                }
            }
        }
        let ghost rest_end = s@.subrange(slen as int, slen as int);
        let ghost cur_end = s@.subrange(start as int, slen as int);
        let ghost dv_end = comps.deep_view();
        proof {
            assert(rest_end =~= Seq::<char>::empty());
        }
        if start < slen {
            let piece = String::from_str(s.substring_char(start, slen));
            comps.push(piece);
            proof {
                assert(cur_end.len() > 0);
                assert(split_path_acc(rest_end, cur_end) == seq![cur_end]);
                assert(comps.deep_view() =~= dv_end + seq![cur_end]);
            }
        } else {
            proof {
                assert(cur_end =~= Seq::<char>::empty());
                assert(split_path_acc(rest_end, cur_end) == Seq::<Seq<char>>::empty());
                assert(dv_end + Seq::<Seq<char>>::empty() =~= dv_end);
            }
        }
        FilePath { components: comps }
    }

    /// The final name component, if the path has one.
    pub fn file_name(&self) -> (r: Option<&String>)
        ensures
            self@.len() == 0 ==> r is None,
            self@.len() > 0 ==> (r matches Some(n) && n@ == self@.last()),
    {
        if self.components.len() > 0 {
            Some(&self.components[self.components.len() - 1])
        } else {
            None
        }
    }

    /// The path without its final component; the empty path stays empty.
    pub fn parent(&self) -> (r: FilePath)
        ensures
            self@.len() > 0 ==> r@ == self@.drop_last(),
            self@.len() == 0 ==> r@ == self@,
    {
        let mut components = self.components.clone();
        proof {
            assert forall|i: int| 0 <= i < self.components@.len() implies components@[i]
                == self.components@[i] by {
                assert(cloned::<String>(self.components@[i], components@[i]));
            }
            assert(components@ =~= self.components@);
        }
        if components.len() > 0 {
            components.pop();
            proof {
                assert(FilePath { components }@ =~= self@.drop_last());
            }
            FilePath { components }
        } else {
            FilePath { components }
        }
    }

    /// The path extended by one more component.
    pub fn join(&self, name: &str) -> (r: FilePath)
        ensures
            r@ == self@.push(name@),
    {
        let mut components = self.components.clone();
        proof {
            assert forall|i: int| 0 <= i < self.components@.len() implies components@[i]
                == self.components@[i] by {
                assert(cloned::<String>(self.components@[i], components@[i]));
            }
            assert(components@ =~= self.components@);
        }
        components.push(String::from_str(name));
        let r = FilePath { components };
        proof {
            assert(r@ =~= self@.push(name@));
        }
        r
    }

    /// Exact equality of two paths, component by component.
    pub fn path_eq(&self, other: &FilePath) -> (r: bool)
        ensures
            r == (self@ == other@),
    {
        proof {
            assert(self@.len() == self.components@.len());
            assert(other@.len() == other.components@.len());
        }
        if self.components.len() != other.components.len() {
            return false;
        }
        let n = self.components.len();
        let mut i: usize = 0;
        while i < n
            invariant
                i <= n,
                n == self@.len(),
                n == other@.len(),
                n == self.components@.len(),
                n == other.components@.len(),
                forall|j: int| 0 <= j < i ==> self@[j] == other@[j],
            decreases n - i,
        {
            if !text::str_eq(self.components[i].as_str(), other.components[i].as_str()) {
                proof {
                    assert(self@[i as int] == self.components@[i as int]@);
                    assert(other@[i as int] == other.components@[i as int]@);
                }
                return false;
            }
            i = i + 1;
        }
        proof {
            assert(self@ =~= other@);
        }
        true
    }

    /// This path is a (not necessarily strict) component-wise prefix of
    /// `other`: `other` lies in the directory this path names.
    pub fn is_prefix_of(&self, other: &FilePath) -> (r: bool)
        ensures
            r == self@.is_prefix_of(other@),
    {
        if self.components.len() > other.components.len() {
            return false;
        }
        let n = self.components.len();
        let mut i: usize = 0;
        while i < n
            invariant
                i <= n,
                n == self@.len(),
                n <= other@.len(),
                n == self.components@.len(),
                n <= other.components@.len(),
                forall|j: int| 0 <= j < i ==> self@[j] == other@[j],
            decreases n - i,
        {
            if !text::str_eq(self.components[i].as_str(), other.components[i].as_str()) {
                proof {
                    assert(other@.subrange(0, n as int)[i as int] == other@[i as int]);
                }
                return false;
            }
            i = i + 1;
        }
        proof {
            assert(self@ =~= other@.subrange(0, n as int));
        }
        true
    }
}

} // verus!
