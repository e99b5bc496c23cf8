use vstd::prelude::*;

use crate::error::CatalogError;

verus! {

/// The character sequences held by a sequence of strings.
pub open spec fn views(v: Seq<String>) -> Seq<Seq<char>> {
    v.map_values(|s: String| s@)
}

/// Every segment has at least one character.
pub open spec fn all_nonempty(segs: Seq<Seq<char>>) -> bool {
    forall|i: int| 0 <= i < segs.len() ==> #[trigger] segs[i].len() > 0
}

/// The segments of a table identifier: at least one namespace segment and a
/// name, none of them empty.
pub open spec fn valid_parts(p: Seq<Seq<char>>) -> bool {
    p.len() >= 2 && all_nonempty(p)
}

/// The segments joined into one text, with `sep` between neighbours.
pub open spec fn join_with(parts: Seq<Seq<char>>, sep: char) -> Seq<char>
    decreases parts.len(),
{
    if parts.len() == 0 {
        seq![]
    } else if parts.len() == 1 {
        parts[0]
    } else {
        join_with(parts.drop_last(), sep) + seq![sep] + parts.last()
    }
}

/// The pieces of `s` between occurrences of `sep`, empty pieces included:
/// the text with no separator is one piece.
pub open spec fn split_on(s: Seq<char>, sep: char) -> Seq<Seq<char>>
    decreases s.len(),
{
    if s.len() == 0 {
        seq![seq![]]
    } else {
        let rest = split_on(s.drop_last(), sep);
        if s.last() == sep {
            rest.push(seq![])
        } else {
            rest.update(rest.len() - 1, rest.last().push(s.last()))
        }
    }
}

pub proof fn lemma_split_nonempty(s: Seq<char>, sep: char)
    ensures
        split_on(s, sep).len() >= 1,
    decreases s.len(),
{
    if s.len() > 0 {
        lemma_split_nonempty(s.drop_last(), sep);
    }
}

/// Joining the pieces of a split with the same separator gives the text back.
pub proof fn lemma_join_split(s: Seq<char>, sep: char)
    ensures
        join_with(split_on(s, sep), sep) == s,
    decreases s.len(),
{
    if s.len() > 0 {
        let rest = split_on(s.drop_last(), sep);
        lemma_split_nonempty(s.drop_last(), sep);
        lemma_join_split(s.drop_last(), sep);
        if s.last() == sep {
            assert(rest.push(seq![]).drop_last() =~= rest);
            assert(join_with(split_on(s, sep), sep) =~= s);
        } else {
            let upd = rest.update(rest.len() - 1, rest.last().push(s.last()));
            if rest.len() == 1 {
                assert(s =~= s.drop_last().push(s.last()));
                assert(join_with(upd, sep) =~= join_with(rest, sep).push(s.last()));
            } else {
                assert(upd.drop_last() =~= rest.drop_last());
                assert(upd.last() == rest.last().push(s.last()));
                assert(join_with(rest, sep) == join_with(rest.drop_last(), sep) + seq![sep]
                    + rest.last());
                assert(join_with(upd, sep) == join_with(upd.drop_last(), sep) + seq![sep]
                    + upd.last());
                assert(s =~= s.drop_last().push(s.last()));
                assert(join_with(upd, sep) =~= join_with(rest, sep).push(s.last()));
            }
        }
    }
}

/// Relies on str::split with a char pattern: the pieces between the
/// separators, in order, empty pieces included.
#[verifier::external_body]
fn split_dots(s: &str) -> (r: Vec<String>)
    ensures
        views(r@) == split_on(s@, '.'),
{
    s.split('.').map(|x| x.to_string()).collect()
}

/// Joins the strings with the one-character separator `sep`.
pub fn join_segments(parts: &Vec<String>, sep: &str) -> (r: String)
    requires
        sep@.len() == 1,
    ensures
        r@ == join_with(views(parts@), sep@[0]),
{
    let mut r = String::new();
    let mut i: usize = 0;
    while i < parts.len()
        invariant
            0 <= i <= parts.len(),
            sep@.len() == 1,
            r@ == join_with(views(parts@).take(i as int), sep@[0]),
        decreases parts.len() - i,
    {
        if i > 0 {
            r.append(sep);
        }
        r.append(parts[i].as_str());
        i += 1;
        assert(views(parts@).take(i as int).drop_last() =~= views(parts@).take(i - 1));
    }
    assert(views(parts@).take(i as int) =~= views(parts@));
    r
}

/// Whether every string of `v` from index `from` on is non-empty.
fn nonempty_from(v: &Vec<String>, from: usize) -> (r: bool)
    requires
        from <= v.len(),
    ensures
        r == all_nonempty(views(v@).skip(from as int)),
{
    let mut i: usize = from;
    while i < v.len()
        invariant
            from <= i <= v.len(),
            all_nonempty(views(v@).subrange(from as int, i as int)),
        decreases v.len() - i,
    {
        if v[i].as_str().is_empty() {
            assert(views(v@).skip(from as int)[i - from].len() == 0);
            return false;
        }
        i += 1;
        assert forall|k: int| 0 <= k < i - from implies #[trigger] views(v@).subrange(
            from as int,
            i as int,
        )[k].len() > 0 by {
            if k < i - 1 - from {
                assert(views(v@).subrange(from as int, i - 1)[k] == views(v@).subrange(
                    from as int,
                    i as int,
                )[k]);
            }
        }
    }
    assert(views(v@).subrange(from as int, i as int) =~= views(v@).skip(from as int));
    true
}

/// A list of copies of the strings of `v`.
pub fn copy_strings(v: &Vec<String>) -> (r: Vec<String>)
    ensures
        views(r@) == views(v@),
{
    let mut r: Vec<String> = Vec::new();
    let mut i: usize = 0;
    while i < v.len()
        invariant
            0 <= i <= v.len(),
            views(r@) == views(v@).take(i as int),
        decreases v.len() - i,
    {
        let segment: String = v[i].clone();
        let ghost prev = r@;
        r.push(segment);
        assert(views(r@) =~= views(prev).push(segment@));
        i += 1;
        assert(views(r@) =~= views(v@).take(i as int));
    }
    assert(views(v@).take(i as int) =~= views(v@));
    r
}

/// Whether the two lists hold the same strings in the same order.
fn same_strings(a: &Vec<String>, b: &Vec<String>) -> (r: bool)
    ensures
        r == (views(a@) == views(b@)),
{
    if a.len() != b.len() {
        assert(views(a@).len() != views(b@).len());
        return false;
    }
    let mut i: usize = 0;
    while i < a.len()
        invariant
            0 <= i <= a.len(),
            a.len() == b.len(),
            views(a@).take(i as int) == views(b@).take(i as int),
        decreases a.len() - i,
    {
        if a[i] != b[i] {
            assert(views(a@)[i as int] != views(b@)[i as int]);
            return false;
        }
        i += 1;
        assert(views(a@).take(i as int) =~= views(b@).take(i as int)) by {
            assert(views(a@).take(i - 1) =~= views(a@).take(i as int).drop_last());
            assert(views(b@).take(i - 1) =~= views(b@).take(i as int).drop_last());
        }
    }
    assert(views(a@) =~= views(a@).take(i as int));
    assert(views(b@) =~= views(b@).take(i as int));
    true
}

/// An ordered sequence of non-empty segments naming a group of tables.
#[derive(Clone, Debug, PartialEq, Eq, Hash)]
pub struct Namespace {
    levels: Vec<String>,
}

impl View for Namespace {
    type V = Seq<Seq<char>>;

    closed spec fn view(&self) -> Seq<Seq<char>> {
        views(self.levels@)
    }
}

impl Namespace {
    /// No segment is empty.
    pub open spec fn wf(&self) -> bool {
        all_nonempty(self@)
    }

    /// A namespace of the given segments; fails when one of them is empty.
    pub fn try_new(levels: &Vec<String>) -> (r: Result<Namespace, CatalogError>)
        ensures
            r is Ok <==> all_nonempty(views(levels@)),
            r matches Ok(n) ==> n@ == views(levels@) && n.wf(),
            r matches Err(e) ==> e is MalformedIdentifier,
    {
        let ok = nonempty_from(levels, 0);
        assert(views(levels@).skip(0) =~= views(levels@));
        if ok {
            Ok(Namespace { levels: levels.clone() })
        } else {
            Err(CatalogError::MalformedIdentifier)
        }
    }

    /// Whether the two namespaces have the same segments.
    pub fn same(&self, other: &Namespace) -> (r: bool)
        ensures
            r == (self@ == other@),
    {
        same_strings(&self.levels, &other.levels)
    }

    /// A namespace with the same segments.
    pub fn clone_namespace(&self) -> (r: Namespace)
        ensures
            r@ == self@,
    {
        Namespace { levels: copy_strings(&self.levels) }
    }

    /// Whether this namespace lies directly under `parent`.
    pub fn is_child_of(&self, parent: &Namespace) -> (r: bool)
        ensures
            r == (self@.len() >= 1 && self@.drop_last() == parent@),
    {
        if self.levels.len() == 0 || self.levels.len() - 1 != parent.levels.len() {
            assert(self@.len() == self.levels.len() && parent@.len() == parent.levels.len());
            assert(self@.len() >= 1 ==> self@.drop_last().len() != parent@.len());
            return false;
        }
        let mut i: usize = 0;
        while i < parent.levels.len()
            invariant
                0 <= i <= parent.levels.len(),
                self.levels.len() == parent.levels.len() + 1,
                forall|k: int| 0 <= k < i ==> #[trigger] self@[k] == parent@[k],
            decreases parent.levels.len() - i,
        {
            if self.levels[i] != parent.levels[i] {
                assert(self@.drop_last()[i as int] != parent@[i as int]);
                return false;
            }
            i += 1;
        }
        assert(self@.drop_last() =~= parent@);
        true
    }

    /// The segments, outermost first.
    pub fn levels(&self) -> (r: &Vec<String>)
        ensures
            views(r@) == self@,
    {
        &self.levels
    }

    /// The canonical text: the segments joined with dots.
    pub fn to_string(&self) -> (r: String)
        ensures
            r@ == join_with(self@, '.'),
    {
        proof {
            reveal_strlit(".");
        }
        join_segments(&self.levels, ".")
    }
}

/// A table's name within a non-empty namespace.
#[derive(Clone, Debug, PartialEq, Eq, Hash)]
pub struct TableIdentifier {
    namespace: Namespace,
    name: String,
}

impl View for TableIdentifier {
    /// The namespace segments followed by the name.
    type V = Seq<Seq<char>>;

    closed spec fn view(&self) -> Seq<Seq<char>> {
        self.namespace@.push(self.name@)
    }
}

impl TableIdentifier {
    /// At least one namespace segment, and no empty segment or name.
    pub open spec fn wf(&self) -> bool {
        valid_parts(self@)
    }

    /// The identifier whose namespace is all of `names` but the last, and
    /// whose name is the last; fails unless there are two or more segments,
    /// none empty.
    pub fn try_new(names: &Vec<String>) -> (r: Result<TableIdentifier, CatalogError>)
        ensures
            r is Ok <==> valid_parts(views(names@)),
            r matches Ok(id) ==> id@ == views(names@) && id.wf(),
            r matches Err(e) ==> e is MalformedIdentifier,
    {
        if names.len() < 2 || !nonempty_from(names, 0) {
            assert(views(names@).skip(0) =~= views(names@));
            return Err(CatalogError::MalformedIdentifier);
        }
        assert(views(names@).skip(0) =~= views(names@));
        let n = names.len() - 1;
        let mut levels: Vec<String> = Vec::new();
        let mut i: usize = 0;
        while i < n
            invariant
                0 <= i <= n,
                n == names.len() - 1,
                views(levels@) == views(names@).take(i as int),
            decreases n - i,
        {
            let segment: String = names[i].clone();
            assert(segment@ == views(names@)[i as int]);
            let ghost prev = levels@;
            levels.push(segment);
            assert(views(levels@) =~= views(prev).push(segment@));
            i += 1;
            assert(views(levels@) =~= views(names@).take(i as int));
        }
        let id = TableIdentifier { namespace: Namespace { levels }, name: names[n].clone() };
        assert(id@ =~= views(names@));
        Ok(id)
    }

    /// The identifier of the namespace segments and the name; fails when the
    /// namespace is empty or a segment or the name is empty.
    pub fn from_parts(namespace: &Vec<String>, name: &String) -> (r: Result<
        TableIdentifier,
        CatalogError,
    >)
        ensures
            r is Ok <==> valid_parts(views(namespace@).push(name@)),
            r matches Ok(id) ==> id@ == views(namespace@).push(name@) && id.wf(),
            r matches Err(e) ==> e is MalformedIdentifier,
    {
        let mut names = namespace.clone();
        names.push(name.clone());
        assert(views(names@) =~= views(namespace@).push(name@));
        TableIdentifier::try_new(&names)
    }

    /// The identifier written as dot-separated segments; fails unless the
    /// text has two or more segments, none empty.
    pub fn parse(text: &str) -> (r: Result<TableIdentifier, CatalogError>)
        ensures
            r is Ok <==> valid_parts(split_on(text@, '.')),
            r matches Ok(id) ==> id@ == split_on(text@, '.') && id.wf(),
            r matches Err(e) ==> e is MalformedIdentifier,
    {
        let names = split_dots(text);
        TableIdentifier::try_new(&names)
    }

    /// Whether the two identifiers have the same segments.
    pub fn same(&self, other: &TableIdentifier) -> (r: bool)
        ensures
            r == (self@ == other@),
    {
        let r = self.namespace.same(&other.namespace) && self.name == other.name;
        proof {
            assert(self@.drop_last() =~= self.namespace@);
            assert(other@.drop_last() =~= other.namespace@);
            assert(self@.last() == self.name@);
            assert(other@.last() == other.name@);
        }
        r
    }

    /// An identifier with the same segments.
    pub fn duplicate(&self) -> (r: TableIdentifier)
        ensures
            r@ == self@,
    {
        TableIdentifier {
            namespace: Namespace { levels: copy_strings(&self.namespace.levels) },
            name: self.name.clone(),
        }
    }

    /// The namespace of the table.
    pub fn namespace(&self) -> (r: &Namespace)
        ensures
            r@ == self@.drop_last(),
    {
        assert(self@.drop_last() =~= self.namespace@);
        &self.namespace
    }

    /// The name of the table within its namespace.
    pub fn name(&self) -> (r: &String)
        ensures
            r@ == self@.last(),
    {
        &self.name
    }

    /// The canonical text: all segments joined with dots.
    pub fn to_string(&self) -> (r: String)
        requires
            self.wf(),
        ensures
            r@ == join_with(self@, '.'),
    {
        let mut r = self.namespace.to_string();
        proof {
            reveal_strlit(".");
        }
        r.append(".");
        r.append(self.name.as_str());
        assert(self@.drop_last() =~= self.namespace@);
        r
    }
}

/// Parsing the text of a parsed identifier gives the same identifier back:
/// the segments that `parse` finds in the text of `to_string` are those it
/// found in `s`.
pub proof fn lemma_parse_round_trip(s: Seq<char>)
    requires
        valid_parts(split_on(s, '.')),
    ensures
        split_on(join_with(split_on(s, '.'), '.'), '.') == split_on(s, '.'),
{
    lemma_join_split(s, '.');
}

} // verus!
