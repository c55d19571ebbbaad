//! The argument that names what to deploy: `repo`, `repo#node` or
//! `repo#node.profile`.

use vstd::prelude::*;
use vstd::string::StrSliceExecFns;

verus! {

/// A parsed flake reference. The parts borrow from the argument.
#[derive(Debug)]
pub struct FlakeTarget<'a> {
    pub repo: &'a str,
    pub node: Option<&'a str>,
    pub profile: Option<&'a str>,
}

/// Mathematical value of a [`FlakeTarget`].
pub struct FlakeModel {
    pub repo: Seq<char>,
    pub node: Option<Seq<char>>,
    pub profile: Option<Seq<char>>,
}

impl<'a> View for FlakeTarget<'a> {
    type V = FlakeModel;

    open spec fn view(&self) -> FlakeModel {
        FlakeModel {
            repo: self.repo@,
            node: match self.node {
                Some(n) => Some(n@),
                None => None,
            },
            profile: match self.profile {
                Some(p) => Some(p@),
                None => None,
            },
        }
    }
}

/// Why a flake reference is malformed.
#[derive(Debug, Clone, Copy, PartialEq, Eq, Structural)]
pub enum ParseError {
    /// Nothing stands between `#` and the end or the `.`.
    EmptyNode,
    /// Nothing follows the `.`.
    EmptyProfile,
    /// More than one `.` follows the `#`.
    TooManyDots,
}

/// What a flake reference means.
///
/// Everything before the first `#` is the repository. What follows it is the
/// fragment: the node up to the first `.`, the profile after it. Without a
/// `#` there is neither node nor profile, without a `.` no profile. A second
/// `.` in the fragment, an empty node and an empty profile are errors, looked
/// for in this order.
pub open spec fn parsed(s: Seq<char>) -> Result<FlakeModel, ParseError> {
    match s.index_of_first('#') {
        None => Ok(FlakeModel { repo: s, node: None, profile: None }),
        Some(hash) => {
            let repo = s.take(hash);
            let fragment = s.skip(hash + 1);
            match fragment.index_of_first('.') {
                None => if fragment.len() == 0 {
                    Err(ParseError::EmptyNode)
                } else {
                    Ok(FlakeModel { repo, node: Some(fragment), profile: None })
                },
                Some(dot) => {
                    let node = fragment.take(dot);
                    let profile = fragment.skip(dot + 1);
                    if profile.contains('.') {
                        Err(ParseError::TooManyDots)
                    } else if node.len() == 0 {
                        Err(ParseError::EmptyNode)
                    } else if profile.len() == 0 {
                        Err(ParseError::EmptyProfile)
                    } else {
                        Ok(FlakeModel { repo, node: Some(node), profile: Some(profile) })
                    }
                },
            }
        },
    }
}

/// Where the separators of a flake reference stand.
struct Marks {
    /// The first `#`.
    hash: Option<usize>,
    /// The first `.` behind the first `#`.
    dot: Option<usize>,
    /// Whether another `.` stands behind that one.
    second_dot: bool,
}

/// What `marks` has to say of the first `seen` characters of `s`.
spec fn marks_hold(s: Seq<char>, seen: int, marks: Marks) -> bool {
    &&& match marks.hash {
        None => marks.dot.is_none() && forall|k: int| 0 <= k < seen ==> s[k] != '#',
        Some(h) => h < seen && s[h as int] == '#' && forall|k: int| 0 <= k < h ==> s[k] != '#',
    }
    &&& match marks.dot {
        None => !marks.second_dot && (marks.hash matches Some(h) ==> forall|k: int|
            h < k < seen ==> s[k] != '.'),
        Some(d) => {
            &&& marks.hash matches Some(h) && h < d && forall|k: int| h < k < d ==> s[k] != '.'
            &&& d < seen && s[d as int] == '.'
            &&& marks.second_dot <==> exists|k: int| d < k < seen && s[k] == '.'
        },
    }
}

/// Finds the separators of `s` in one pass.
fn scan(s: &str) -> (out: (Marks, usize))
    ensures
        out.1 == s@.len(),
        marks_hold(s@, s@.len() as int, out.0),
{
    let length = s.unicode_len();
    let mut marks = Marks { hash: None, dot: None, second_dot: false };
    let mut at: usize = 0;
    for c in it: s.chars()
        invariant
            at == it.index(),
            it.seq() == s@,
            length == s@.len(),
            marks_hold(s@, at as int, marks),
    {
        let ghost before = marks;
        if marks.hash.is_none() {
            if c == '#' {
                marks.hash = Some(at);
            }
        } else if c == '.' {
            if marks.dot.is_none() {
                marks.dot = Some(at);
            } else {
                marks.second_dot = true;
                assert(s@[at as int] == '.');
            }
        }
        proof {
            if before.dot.is_some() && before.second_dot {
                let d = before.dot.unwrap();
                let k = choose|k: int| d < k < at && s@[k] == '.';
                assert(d < k < at + 1 && s@[k] == '.');
            }
        }
        at = at + 1;
    }
    (marks, length)
}

/// Splits a flake reference into repository, node and profile.
pub fn parse_flake<'a>(flake: &'a str) -> (out: Result<FlakeTarget<'a>, ParseError>)
    ensures
        match out {
            Ok(target) => parsed(flake@) == Ok::<FlakeModel, ParseError>(target@),
            Err(e) => parsed(flake@) == Err::<FlakeModel, ParseError>(e),
        },
{
    let (marks, length) = scan(flake);
    let ghost s = flake@;
    proof {
        s.index_of_first_ensures('#');
    }
    match marks.hash {
        None => {
            assert(!s.contains('#'));
            Ok(FlakeTarget { repo: flake, node: None, profile: None })
        },
        Some(hash) => {
            let ghost fragment = s.skip(hash + 1);
            proof {
                assert(s.index_of_first('#') == Some(hash as int));
                fragment.index_of_first_ensures('.');
                assert forall|k: int| 0 <= k < fragment.len() implies fragment[k] == s[hash + 1
                    + k] by {}
            }
            let repo = flake.substring_char(0, hash);
            assert(repo@ =~= s.take(hash as int));
            match marks.dot {
                None => {
                    assert(!fragment.contains('.'));
                    if hash + 1 == length {
                        Err(ParseError::EmptyNode)
                    } else {
                        let node = flake.substring_char(hash + 1, length);
                        assert(node@ =~= fragment);
                        Ok(FlakeTarget { repo, node: Some(node), profile: None })
                    }
                },
                Some(dot) => {
                    let ghost profile_text = fragment.skip(dot - hash);
                    proof {
                        assert(fragment[dot - hash - 1] == '.');
                        assert(fragment.index_of_first('.') == Some(dot - hash - 1));
                        assert forall|k: int| 0 <= k < profile_text.len() implies profile_text[k]
                            == s[dot + 1 + k] by {}
                        if marks.second_dot {
                            let k = choose|k: int| dot < k < s.len() && s[k] == '.';
                            assert(profile_text[k - dot - 1] == '.');
                        }
                        if profile_text.contains('.') {
                            let j = choose|j: int|
                                0 <= j < profile_text.len() && profile_text[j] == '.';
                            assert(s[dot + 1 + j] == '.');
                        }
                        assert(marks.second_dot == profile_text.contains('.'));
                    }
                    if marks.second_dot {
                        Err(ParseError::TooManyDots)
                    } else if dot == hash + 1 {
                        assert(fragment.take(dot - hash - 1).len() == 0);
                        Err(ParseError::EmptyNode)
                    } else if dot + 1 == length {
                        Err(ParseError::EmptyProfile)
                    } else {
                        let node = flake.substring_char(hash + 1, dot);
                        let profile = flake.substring_char(dot + 1, length);
                        assert(node@ =~= fragment.take(dot - hash - 1));
                        assert(profile@ =~= profile_text);
                        Ok(FlakeTarget { repo, node: Some(node), profile: Some(profile) })
                    }
                },
            }
        },
    }
}

impl FlakeModel {
    /// Whether the parts can be written as one flake reference and read
    /// back: the repository holds no `#`, node and profile are not empty and
    /// hold no `.`, and a profile comes with a node.
    pub open spec fn well_formed(self) -> bool {
        &&& !self.repo.contains('#')
        &&& self.node matches Some(n) ==> n.len() > 0 && !n.contains('.')
        &&& self.profile matches Some(p) ==> p.len() > 0 && !p.contains('.') && self.node.is_some()
    }

    /// The flake reference that names these parts.
    pub open spec fn text(self) -> Seq<char> {
        match (self.node, self.profile) {
            (Some(n), Some(p)) => self.repo + seq!['#'] + n + seq!['.'] + p,
            (Some(n), None) => self.repo + seq!['#'] + n,
            _ => self.repo,
        }
    }
}

/// In `head` followed by `mark` and `rest`, the first `mark` stands right
/// behind `head` when `head` holds none.
proof fn lemma_first_mark(head: Seq<char>, mark: char, rest: Seq<char>)
    requires
        !head.contains(mark),
    ensures
        (head + seq![mark] + rest).index_of_first(mark) == Some(head.len() as int),
        (head + seq![mark] + rest).take(head.len() as int) == head,
        (head + seq![mark] + rest).skip(head.len() as int + 1) == rest,
{
    let s = head + seq![mark] + rest;
    s.index_of_first_ensures(mark);
    assert(s[head.len() as int] == mark);
    assert forall|k: int| 0 <= k < head.len() implies s[k] != mark by {
        assert(s[k] == head[k]);
        assert(head.contains(head[k]));
    }
    assert(s.take(head.len() as int) =~= head);
    assert(s.skip(head.len() as int + 1) =~= rest);
}

/// Reading back what was written gives the same parts: the text of a
/// well-formed reference parses, and to that reference.
pub proof fn lemma_parse_reads_back(model: FlakeModel)
    requires
        model.well_formed(),
    ensures
        parsed(model.text()) == Ok::<FlakeModel, ParseError>(model),
{
    let repo = model.repo;
    match (model.node, model.profile) {
        (Some(n), Some(p)) => {
            let fragment = n + seq!['.'] + p;
            assert(model.text() =~= repo + seq!['#'] + fragment);
            lemma_first_mark(repo, '#', fragment);
            lemma_first_mark(n, '.', p);
        },
        (Some(n), None) => {
            lemma_first_mark(repo, '#', n);
            n.index_of_first_ensures('.');
        },
        _ => {
            repo.index_of_first_ensures('#');
        },
    }
}

} // verus!
