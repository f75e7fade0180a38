use crate::path::{join_segments, joined, segments, split_segments, texts};
use crate::text::strip_prefix;
use vstd::prelude::*;
use vstd::string::*;

verus! {

/// Whether a path begins at the top of the file system.
pub open spec fn is_absolute(path: Seq<char>) -> bool {
    path.len() > 0 && path[0] == '/'
}

/// The path that the components stand for: the components with separators
/// between them, behind a separator where the path is absolute.
pub open spec fn rendered(absolute: bool, names: Seq<Seq<char>>) -> Seq<char> {
    if absolute {
        seq!['/'] + joined(names)
    } else {
        joined(names)
    }
}

/// The position in a tree under construction, as one path: the components
/// of the root directory, and behind them one name for each level that has
/// been entered. Leaving a level takes the last component, whichever of the
/// two it is.
pub struct PathStack {
    /// Whether the path begins at the top of the file system.
    pub absolute: bool,
    /// The components of the path, the outermost first.
    pub names: Vec<String>,
}

impl PathStack {
    /// The components of the path, as plain texts.
    pub open spec fn names(&self) -> Seq<Seq<char>> {
        texts(self.names@)
    }

    /// The path that the stack stands for.
    pub open spec fn path(&self) -> Seq<char> {
        rendered(self.absolute, self.names())
    }

    /// The stack that stands for `root` itself: its components are the
    /// segments of `root`.
    pub fn new(root: &str) -> (r: PathStack)
        ensures
            r.absolute == is_absolute(root@),
            r.names() == segments(root@),
    {
        proof {
            reveal_strlit("/");
            if root@.len() > 0 {
                assert(root@.subrange(0, 1)[0] == root@[0]);
                assert(root@[0] == '/' ==> root@.subrange(0, 1) == seq!['/']);
            }
        }
        let absolute = strip_prefix(root, "/").is_some();
        PathStack { absolute, names: split_segments(root) }
    }

    /// The number of components.
    pub fn len(&self) -> (r: usize)
        ensures
            r == self.names().len(),
    {
        self.names.len()
    }

    /// Enters the level `name`.
    pub fn push(&mut self, name: String)
        ensures
            final(self).absolute == old(self).absolute,
            final(self).names() == old(self).names().push(name@),
    {
        self.names.push(name);
    }

    /// Leaves the innermost level: takes the last component from the path.
    /// Returns `false`, and changes nothing, when the path has none.
    pub fn pop(&mut self) -> (r: bool)
        ensures
            final(self).absolute == old(self).absolute,
            r == (old(self).names().len() > 0),
            r ==> final(self).names() == old(self).names().drop_last(),
            !r ==> final(self).names() == old(self).names(),
    {
        if self.names.len() > 0 {
            self.names.pop();
            true
        } else {
            false
        }
    }

    /// Puts `name` in the place of the last component, or enters it when
    /// the path has no component.
    pub fn set_file_name(&mut self, name: String)
        ensures
            final(self).absolute == old(self).absolute,
            final(self).names() == if old(self).names().len() > 0 {
                old(self).names().drop_last().push(name@)
            } else {
                seq![name@]
            },
    {
        self.pop();
        self.push(name);
    }

    /// The path that the stack stands for, as text.
    pub fn to_string(&self) -> (r: String)
        ensures
            r@ == self.path(),
    {
        proof {
            reveal_strlit("/");
        }
        let below = join_segments(&self.names);
        let mut out = String::new();
        if self.absolute {
            out.append("/");
        }
        out.append(below.as_str());
        out
    }
}

} // verus!
