//! What a service tells the outside about itself: its methods, and the
//! schemas of the types that travel through them, kept in order of their
//! names.

use crate::text::{lemma_str_lt_irreflexive, lemma_str_lt_total, lemma_str_lt_transitive, str_less, str_lt, str_same};
use vstd::prelude::*;

verus! {

/// The values of a sequence of items.
pub open spec fn views<T: View>(items: Seq<T>) -> Seq<T::V> {
    items.map_values(|item: T| item@)
}

/// The values of a sequence that was extended by an item whose value is that
/// of the next item of `items`.
pub proof fn lemma_views_step<T: View>(out: Seq<T>, added: T, items: Seq<T>, i: int)
    requires
        0 <= i < items.len(),
        views(out) == views(items.take(i)),
        added@ == items[i]@,
    ensures
        views(out.push(added)) == views(items.take(i + 1)),
{
    assert(views(out).len() == i);
    assert(views(out.push(added)) =~= views(out).push(added@));
    assert(views(items.take(i + 1)) =~= views(items.take(i)).push(items[i]@));
}

/// One field of a type: its name and the name of its type.
#[derive(Debug)]
pub struct FieldMeta {
    pub name: String,
    pub field_type: String,
}

impl View for FieldMeta {
    type V = (Seq<char>, Seq<char>);

    open spec fn view(&self) -> (Seq<char>, Seq<char>) {
        (self.name@, self.field_type@)
    }
}

impl Clone for FieldMeta {
    fn clone(&self) -> (r: Self)
        ensures
            r@ == self@,
    {
        FieldMeta { name: self.name.clone(), field_type: self.field_type.clone() }
    }
}

/// The schema of a type: its name and its fields in order.
#[derive(Debug)]
pub struct DataMeta {
    pub name: String,
    pub fields: Vec<FieldMeta>,
}

/// The mathematical value of a `DataMeta`.
pub struct DataMetaView {
    pub name: Seq<char>,
    pub fields: Seq<(Seq<char>, Seq<char>)>,
}

impl View for DataMeta {
    type V = DataMetaView;

    open spec fn view(&self) -> DataMetaView {
        DataMetaView { name: self.name@, fields: views(self.fields@) }
    }
}

impl Clone for DataMeta {
    fn clone(&self) -> (r: Self)
        ensures
            r@ == self@,
    {
        let mut fields: Vec<FieldMeta> = Vec::new();
        let mut i: usize = 0;
        while i < self.fields.len()
            invariant
                i <= self.fields.len(),
                views(fields@) == views(self.fields@.take(i as int)),
            decreases self.fields.len() - i,
        {
            let ghost before = fields@;
            let field = self.fields[i].clone();
            proof {
                lemma_views_step(before, field, self.fields@, i as int);
            }
            fields.push(field);
            i += 1;
        }
        assert(self.fields@.take(self.fields.len() as int) =~= self.fields@);
        DataMeta { name: self.name.clone(), fields }
    }
}

/// One callable method of a service.
#[derive(Debug)]
pub struct MethodMeta {
    /// The name under which the method is called.
    pub method_name: String,
    /// The name of the payload type, where the method takes a payload.
    pub payload_type: Option<String>,
    /// Whether the method only reads the service's state.
    pub readonly: bool,
    /// The name of the type of the data of a success, where there is any.
    pub res_type: Option<String>,
}

/// The mathematical value of a `MethodMeta`.
pub struct MethodMetaView {
    pub method_name: Seq<char>,
    pub payload_type: Option<Seq<char>>,
    pub readonly: bool,
    pub res_type: Option<Seq<char>>,
}

/// The value of a name that may be absent.
pub open spec fn name_view(name: Option<String>) -> Option<Seq<char>> {
    match name {
        Some(text) => Some(text@),
        None => None,
    }
}

/// Copies a name that may be absent.
pub fn clone_name(name: &Option<String>) -> (r: Option<String>)
    ensures
        name_view(r) == name_view(*name),
{
    match name {
        Some(text) => Some(text.clone()),
        None => None,
    }
}

impl View for MethodMeta {
    type V = MethodMetaView;

    open spec fn view(&self) -> MethodMetaView {
        MethodMetaView {
            method_name: self.method_name@,
            payload_type: name_view(self.payload_type),
            readonly: self.readonly,
            res_type: name_view(self.res_type),
        }
    }
}

impl Clone for MethodMeta {
    fn clone(&self) -> (r: Self)
        ensures
            r@ == self@,
    {
        MethodMeta {
            method_name: self.method_name.clone(),
            payload_type: clone_name(&self.payload_type),
            readonly: self.readonly,
            res_type: clone_name(&self.res_type),
        }
    }
}

/// Copies a list of methods.
pub fn clone_methods(items: &Vec<MethodMeta>) -> (r: Vec<MethodMeta>)
    ensures
        views(r@) == views(items@),
{
    let mut out: Vec<MethodMeta> = Vec::new();
    let mut i: usize = 0;
    while i < items.len()
        invariant
            i <= items.len(),
            views(out@) == views(items@.take(i as int)),
        decreases items.len() - i,
    {
        let ghost before = out@;
        let item = items[i].clone();
        proof {
            lemma_views_step(before, item, items@, i as int);
        }
        out.push(item);
        i += 1;
    }
    assert(items@.take(items.len() as int) =~= items@);
    out
}

/// Whether the schemas stand in strictly ascending order of their names.
pub open spec fn ascending(entries: Seq<DataMetaView>) -> bool {
    forall|i: int, j: int| 0 <= i < j < entries.len() ==> str_lt(#[trigger] entries[i].name, #[trigger] entries[j].name)
}

/// The schemas after one more is registered: it takes the place of the schema
/// of the same name where there is one, and else stands before the first
/// schema whose name comes after its own.
pub open spec fn registered(entries: Seq<DataMetaView>, meta: DataMetaView) -> Seq<DataMetaView>
    decreases entries.len(),
{
    if entries.len() == 0 {
        seq![meta]
    } else if entries[0].name == meta.name {
        seq![meta] + entries.skip(1)
    } else if str_lt(meta.name, entries[0].name) {
        seq![meta] + entries
    } else {
        seq![entries[0]] + registered(entries.skip(1), meta)
    }
}

/// The schemas after those of a list are registered, one after the other.
pub open spec fn registered_all(entries: Seq<DataMetaView>, metas: Seq<DataMetaView>) -> Seq<DataMetaView>
    decreases metas.len(),
{
    if metas.len() == 0 {
        entries
    } else {
        registered(registered_all(entries, metas.drop_last()), metas.last())
    }
}

/// How many of the schemas are called `name`.
pub open spec fn occurrences(entries: Seq<DataMetaView>, name: Seq<char>) -> nat
    decreases entries.len(),
{
    if entries.len() == 0 {
        0
    } else {
        occurrences(entries.drop_last(), name) + if entries.last().name == name {
            1nat
        } else {
            0nat
        }
    }
}

/// While the names before position `i` all come before the new name, the new
/// schema is registered among the schemas from `i` on.
pub proof fn lemma_registered_after(entries: Seq<DataMetaView>, meta: DataMetaView, i: int)
    requires
        0 <= i <= entries.len(),
        forall|k: int| 0 <= k < i ==> str_lt(#[trigger] entries[k].name, meta.name),
    ensures
        registered(entries, meta) == entries.take(i) + registered(entries.skip(i), meta),
    decreases i,
{
    if i == 0 {
        assert(entries.skip(0) =~= entries);
        assert(entries.take(0) + registered(entries, meta) =~= registered(entries, meta));
    } else {
        let rest = entries.skip(1);
        assert(str_lt(entries[0].name, meta.name));
        lemma_str_lt_irreflexive(meta.name);
        if str_lt(meta.name, entries[0].name) {
            lemma_str_lt_transitive(meta.name, entries[0].name, meta.name);
        }
        assert forall|k: int| 0 <= k < i - 1 implies str_lt(#[trigger] rest[k].name, meta.name) by {
            assert(rest[k] == entries[k + 1]);
        }
        lemma_registered_after(rest, meta, i - 1);
        assert(rest.skip(i - 1) =~= entries.skip(i));
        assert(seq![entries[0]] + rest.take(i - 1) =~= entries.take(i));
        assert(seq![entries[0]] + (rest.take(i - 1) + registered(rest.skip(i - 1), meta)) =~= entries.take(i)
            + registered(entries.skip(i), meta));
    }
}

/// Registering a schema keeps the names in strictly ascending order.
pub proof fn lemma_registered_ascending(entries: Seq<DataMetaView>, meta: DataMetaView)
    requires
        ascending(entries),
    ensures
        ascending(registered(entries, meta)),
    decreases entries.len(),
{
    if entries.len() == 0 {
    } else if entries[0].name == meta.name {
        let after = seq![meta] + entries.skip(1);
        assert forall|i: int, j: int| 0 <= i < j < after.len() implies str_lt(
            #[trigger] after[i].name,
            #[trigger] after[j].name,
        ) by {
            assert(after[j] == entries[j]);
            if i > 0 {
                assert(after[i] == entries[i]);
            } else {
                assert(str_lt(entries[0].name, entries[j].name));
            }
        }
    } else if str_lt(meta.name, entries[0].name) {
        let after = seq![meta] + entries;
        assert forall|i: int, j: int| 0 <= i < j < after.len() implies str_lt(
            #[trigger] after[i].name,
            #[trigger] after[j].name,
        ) by {
            assert(after[j] == entries[j - 1]);
            if i > 0 {
                assert(after[i] == entries[i - 1]);
            } else if j > 1 {
                assert(str_lt(entries[0].name, entries[j - 1].name));
                lemma_str_lt_transitive(meta.name, entries[0].name, entries[j - 1].name);
            }
        }
    } else {
        let rest = entries.skip(1);
        assert forall|i: int, j: int| 0 <= i < j < rest.len() implies str_lt(
            #[trigger] rest[i].name,
            #[trigger] rest[j].name,
        ) by {
            assert(rest[i] == entries[i + 1] && rest[j] == entries[j + 1]);
        }
        lemma_registered_ascending(rest, meta);
        lemma_registered_names(rest, meta);
        lemma_str_lt_total(meta.name, entries[0].name);
        let tail = registered(rest, meta);
        let after = seq![entries[0]] + tail;
        assert forall|i: int, j: int| 0 <= i < j < after.len() implies str_lt(
            #[trigger] after[i].name,
            #[trigger] after[j].name,
        ) by {
            assert(after[j] == tail[j - 1]);
            if i > 0 {
                assert(after[i] == tail[i - 1]);
            } else if tail[j - 1].name != meta.name {
                let k = choose|k: int| 0 <= k < rest.len() && rest[k].name == tail[j - 1].name;
                assert(rest[k] == entries[k + 1]);
            }
        }
    }
}

/// After a schema is registered, every name among the schemas is the new
/// name or was there before.
pub proof fn lemma_registered_names(entries: Seq<DataMetaView>, meta: DataMetaView)
    ensures
        forall|j: int|
            0 <= j < registered(entries, meta).len() ==> (#[trigger] registered(entries, meta)[j]).name == meta.name
                || exists|k: int| 0 <= k < entries.len() && entries[k].name == registered(entries, meta)[j].name,
    decreases entries.len(),
{
    let after = registered(entries, meta);
    if entries.len() == 0 {
    } else if entries[0].name == meta.name {
        assert forall|j: int| 0 <= j < after.len() implies (#[trigger] after[j]).name == meta.name || exists|k: int|
            0 <= k < entries.len() && entries[k].name == after[j].name by {
            if j > 0 {
                assert(after[j] == entries[j]);
            }
        }
    } else if str_lt(meta.name, entries[0].name) {
        assert forall|j: int| 0 <= j < after.len() implies (#[trigger] after[j]).name == meta.name || exists|k: int|
            0 <= k < entries.len() && entries[k].name == after[j].name by {
            if j > 0 {
                assert(after[j] == entries[j - 1]);
            }
        }
    } else {
        let rest = entries.skip(1);
        let tail = registered(rest, meta);
        lemma_registered_names(rest, meta);
        assert forall|j: int| 0 <= j < after.len() implies (#[trigger] after[j]).name == meta.name || exists|k: int|
            0 <= k < entries.len() && entries[k].name == after[j].name by {
            if j == 0 {
                assert(after[0] == entries[0]);
            } else {
                assert(after[j] == tail[j - 1]);
                if tail[j - 1].name != meta.name {
                    let k = choose|k: int| 0 <= k < rest.len() && rest[k].name == tail[j - 1].name;
                    assert(rest[k] == entries[k + 1]);
                }
            }
        }
    }
}

/// A name that none of the schemas has occurs no time among them.
pub proof fn lemma_occurrences_none(entries: Seq<DataMetaView>, name: Seq<char>)
    requires
        forall|i: int| 0 <= i < entries.len() ==> (#[trigger] entries[i]).name != name,
    ensures
        occurrences(entries, name) == 0,
    decreases entries.len(),
{
    if entries.len() > 0 {
        let front = entries.drop_last();
        assert forall|i: int| 0 <= i < front.len() implies (#[trigger] front[i]).name != name by {
            assert(front[i] == entries[i]);
        }
        lemma_occurrences_none(front, name);
    }
}

/// A name that one of the schemas has occurs at least once among them.
pub proof fn lemma_occurrences_some(entries: Seq<DataMetaView>, name: Seq<char>, at: int)
    requires
        0 <= at < entries.len(),
        entries[at].name == name,
    ensures
        occurrences(entries, name) >= 1,
    decreases entries.len(),
{
    if at < entries.len() - 1 {
        let front = entries.drop_last();
        assert(front[at] == entries[at]);
        lemma_occurrences_some(front, name, at);
    }
}

/// Among schemas in strictly ascending order of their names, no name occurs
/// twice.
pub proof fn lemma_ascending_once(entries: Seq<DataMetaView>, name: Seq<char>)
    requires
        ascending(entries),
    ensures
        occurrences(entries, name) <= 1,
    decreases entries.len(),
{
    if entries.len() > 0 {
        let front = entries.drop_last();
        assert forall|i: int, j: int| 0 <= i < j < front.len() implies str_lt(
            #[trigger] front[i].name,
            #[trigger] front[j].name,
        ) by {
            assert(front[i] == entries[i] && front[j] == entries[j]);
        }
        lemma_ascending_once(front, name);
        if entries.last().name == name {
            assert forall|i: int| 0 <= i < front.len() implies (#[trigger] front[i]).name != name by {
                assert(front[i] == entries[i]);
                assert(str_lt(entries[i].name, entries[entries.len() - 1].name));
                lemma_str_lt_irreflexive(name);
            }
            lemma_occurrences_none(front, name);
        }
    }
}

/// After a schema is registered, it stands among the schemas.
pub proof fn lemma_registered_holds(entries: Seq<DataMetaView>, meta: DataMetaView)
    ensures
        exists|at: int| 0 <= at < registered(entries, meta).len() && #[trigger] registered(entries, meta)[at] == meta,
    decreases entries.len(),
{
    let after = registered(entries, meta);
    if entries.len() == 0 || entries[0].name == meta.name || str_lt(meta.name, entries[0].name) {
        assert(after[0] == meta);
    } else {
        let tail = registered(entries.skip(1), meta);
        lemma_registered_holds(entries.skip(1), meta);
        let at = choose|at: int| 0 <= at < tail.len() && #[trigger] tail[at] == meta;
        assert(after[at + 1] == tail[at]);
    }
}

/// A registered type appears exactly once, however often it is registered
/// and by however many methods it is shared.
pub proof fn lemma_registered_once(entries: Seq<DataMetaView>, meta: DataMetaView)
    requires
        ascending(entries),
    ensures
        occurrences(registered(entries, meta), meta.name) == 1,
        ascending(registered(entries, meta)),
{
    let after = registered(entries, meta);
    lemma_registered_ascending(entries, meta);
    lemma_ascending_once(after, meta.name);
    lemma_registered_holds(entries, meta);
    let at = choose|at: int| 0 <= at < after.len() && #[trigger] after[at] == meta;
    lemma_occurrences_some(after, meta.name, at);
}

/// Registering the schemas of a list keeps the names in strictly ascending
/// order, so that afterwards no name occurs twice.
pub proof fn lemma_registered_all_ascending(entries: Seq<DataMetaView>, metas: Seq<DataMetaView>)
    requires
        ascending(entries),
    ensures
        ascending(registered_all(entries, metas)),
        forall|name: Seq<char>| occurrences(registered_all(entries, metas), name) <= 1,
    decreases metas.len(),
{
    if metas.len() > 0 {
        lemma_registered_all_ascending(entries, metas.drop_last());
        lemma_registered_ascending(registered_all(entries, metas.drop_last()), metas.last());
    }
    assert forall|name: Seq<char>| occurrences(registered_all(entries, metas), name) <= 1 by {
        lemma_ascending_once(registered_all(entries, metas), name);
    }
}

/// Registering a schema a second time changes nothing.
pub proof fn lemma_registered_idempotent(entries: Seq<DataMetaView>, meta: DataMetaView)
    ensures
        registered(registered(entries, meta), meta) == registered(entries, meta),
    decreases entries.len(),
{
    let once = registered(entries, meta);
    if entries.len() == 0 {
        assert(once.skip(1) =~= Seq::<DataMetaView>::empty());
        assert(seq![meta] + once.skip(1) =~= once);
    } else if entries[0].name == meta.name {
        assert(once.skip(1) =~= entries.skip(1));
    } else if str_lt(meta.name, entries[0].name) {
        assert(once.skip(1) =~= entries);
    } else {
        lemma_registered_idempotent(entries.skip(1), meta);
        assert(once.skip(1) =~= registered(entries.skip(1), meta));
        assert(once[0] == entries[0]);
    }
}

/// The order in which two schemas of different names are registered makes
/// no difference.
pub proof fn lemma_registered_commutes(entries: Seq<DataMetaView>, a: DataMetaView, b: DataMetaView)
    requires
        a.name != b.name,
    ensures
        registered(registered(entries, a), b) == registered(registered(entries, b), a),
    decreases entries.len(),
{
    lemma_str_lt_total(a.name, b.name);
    lemma_str_lt_irreflexive(a.name);
    lemma_str_lt_irreflexive(b.name);
    if str_lt(a.name, b.name) && str_lt(b.name, a.name) {
        lemma_str_lt_transitive(a.name, b.name, a.name);
    }
    let with_a = registered(entries, a);
    let with_b = registered(entries, b);
    if entries.len() == 0 {
        assert(with_a.skip(1) =~= Seq::<DataMetaView>::empty());
        assert(with_b.skip(1) =~= Seq::<DataMetaView>::empty());
        assert(registered(with_a.skip(1), b) =~= seq![b]);
        assert(registered(with_b.skip(1), a) =~= seq![a]);
        assert(with_a[0] == a && with_b[0] == b);
        assert(registered(with_a, b) =~= registered(with_b, a));
    } else {
        let head = entries[0];
        let rest = entries.skip(1);
        lemma_str_lt_total(a.name, head.name);
        lemma_str_lt_total(b.name, head.name);
        lemma_str_lt_irreflexive(head.name);
        if str_lt(a.name, head.name) && str_lt(head.name, a.name) {
            lemma_str_lt_transitive(a.name, head.name, a.name);
        }
        if str_lt(b.name, head.name) && str_lt(head.name, b.name) {
            lemma_str_lt_transitive(b.name, head.name, b.name);
        }
        if str_lt(a.name, head.name) && str_lt(head.name, b.name) {
            lemma_str_lt_transitive(a.name, head.name, b.name);
        }
        if str_lt(b.name, head.name) && str_lt(head.name, a.name) {
            lemma_str_lt_transitive(b.name, head.name, a.name);
        }
        lemma_registered_commutes(rest, a, b);
        assert(with_a.skip(1) =~= if head.name == a.name {
            rest
        } else if str_lt(a.name, head.name) {
            entries
        } else {
            registered(rest, a)
        });
        assert(with_b.skip(1) =~= if head.name == b.name {
            rest
        } else if str_lt(b.name, head.name) {
            entries
        } else {
            registered(rest, b)
        });
        let left = registered(with_a, b);
        let right = registered(with_b, a);
        if str_lt(head.name, a.name) && str_lt(head.name, b.name) {
            assert(left =~= seq![head] + registered(registered(rest, a), b));
            assert(right =~= seq![head] + registered(registered(rest, b), a));
        } else if str_lt(head.name, a.name) {
            assert(left =~= seq![b] + with_a.skip(if head.name == b.name {
                1int
            } else {
                0int
            }));
            assert(right.skip(1) =~= registered(with_b.skip(1), a));
            assert(left =~= right);
        } else if str_lt(head.name, b.name) {
            assert(right =~= seq![a] + with_b.skip(if head.name == a.name {
                1int
            } else {
                0int
            }));
            assert(left.skip(1) =~= registered(with_a.skip(1), b));
            assert(left =~= right);
        } else {
            assert(left.skip(1) =~= if str_lt(b.name, a.name) {
                with_a
            } else {
                registered(with_a.skip(1), b)
            });
            assert(right.skip(1) =~= if str_lt(a.name, b.name) {
                with_b
            } else {
                registered(with_b.skip(1), a)
            });
            assert(left =~= right);
        }
    }
}

/// The schemas of a set of types, one for each name, in ascending order of
/// the names.
#[derive(Debug)]
pub struct Registry {
    entries: Vec<DataMeta>,
}

impl View for Registry {
    type V = Seq<DataMetaView>;

    closed spec fn view(&self) -> Seq<DataMetaView> {
        views(self.entries@)
    }
}

impl Registry {
    #[verifier::type_invariant]
    spec fn well_formed(self) -> bool {
        ascending(views(self.entries@))
    }

    /// A registry that holds no schema.
    pub fn new() -> (r: Registry)
        ensures
            r@ == Seq::<DataMetaView>::empty(),
    {
        let r = Registry { entries: Vec::new() };
        assert(views(r.entries@) =~= Seq::<DataMetaView>::empty());
        r
    }

    /// Registers the schema of a type. A schema registered before under the
    /// same name is replaced, so registering a type again changes nothing.
    pub fn register_type(&mut self, meta: DataMeta)
        ensures
            final(self)@ == registered(old(self)@, meta@),
            ascending(final(self)@),
    {
        proof {
            use_type_invariant(&*self);
        }
        let ghost before = views(self.entries@);
        let mut entries: Vec<DataMeta> = Vec::new();
        assert(views(entries@) =~= Seq::<DataMetaView>::empty());
        core::mem::swap(&mut self.entries, &mut entries);
        let mut i: usize = 0;
        while i < entries.len() && str_less(entries[i].name.as_str(), meta.name.as_str())
            invariant
                i <= entries.len(),
                before == views(entries@),
                forall|k: int| 0 <= k < i ==> str_lt(#[trigger] before[k].name, meta@.name),
            decreases entries.len() - i,
        {
            i += 1;
        }
        proof {
            lemma_registered_after(before, meta@, i as int);
            lemma_registered_ascending(before, meta@);
        }
        if i < entries.len() && str_same(entries[i].name.as_str(), meta.name.as_str()) {
            assert(before.skip(i as int)[0] == before[i as int]);
            assert(views(entries@.update(i as int, meta)) =~= before.take(i as int) + (seq![meta@] + before.skip(
                i as int,
            ).skip(1)));
            entries.set(i, meta);
        } else {
            proof {
                if i < entries.len() {
                    assert(before.skip(i as int)[0] == before[i as int]);
                    lemma_str_lt_total(meta@.name, before[i as int].name);
                }
                assert(views(entries@.insert(i as int, meta)) =~= before.take(i as int) + registered(
                    before.skip(i as int),
                    meta@,
                ));
            }
            entries.insert(i, meta);
        }
        core::mem::swap(&mut self.entries, &mut entries);
    }

    /// Registers the schemas of a list, one after the other.
    pub fn register_all(&mut self, metas: &Vec<DataMeta>)
        ensures
            final(self)@ == registered_all(old(self)@, views(metas@)),
            ascending(final(self)@),
    {
        proof {
            use_type_invariant(&*self);
        }
        let ghost all = views(metas@);
        let mut i: usize = 0;
        assert(all.take(0) =~= Seq::<DataMetaView>::empty());
        while i < metas.len()
            invariant
                i <= metas.len(),
                all == views(metas@),
                self@ == registered_all(old(self)@, all.take(i as int)),
                ascending(self@),
            decreases metas.len() - i,
        {
            assert(all.take(i + 1).drop_last() =~= all.take(i as int));
            assert(all.take(i + 1).last() == metas@[i as int]@);
            self.register_type(metas[i].clone());
            i += 1;
        }
        assert(all.take(metas.len() as int) =~= all);
    }

    /// The schema registered under a name.
    pub fn get(&self, name: &str) -> (r: Option<&DataMeta>)
        ensures
            match r {
                Some(meta) => meta@.name == name@ && self@.contains(meta@) && occurrences(self@, name@) == 1,
                None => occurrences(self@, name@) == 0,
            },
    {
        let mut i: usize = 0;
        while i < self.entries.len()
            invariant
                i <= self.entries.len(),
                forall|k: int| 0 <= k < i ==> (#[trigger] self@[k]).name != name@,
            decreases self.entries.len() - i,
        {
            if str_same(self.entries[i].name.as_str(), name) {
                proof {
                    use_type_invariant(self);
                    lemma_ascending_once(self@, name@);
                    assert(self@[i as int] == self.entries@[i as int]@);
                    lemma_occurrences_some(self@, name@, i as int);
                }
                return Some(&self.entries[i]);
            }
            i += 1;
        }
        proof {
            lemma_occurrences_none(self@, name@);
        }
        None
    }

    /// The schemas, in ascending order of their names.
    pub fn entries(&self) -> (r: &Vec<DataMeta>)
        ensures
            views(r@) == self@,
            ascending(self@),
    {
        proof {
            use_type_invariant(self);
        }
        &self.entries
    }

    /// How many schemas the registry holds.
    pub fn len(&self) -> (r: usize)
        ensures
            r == self@.len(),
    {
        self.entries.len()
    }
}

/// What a service tells about itself: its methods, the schemas of the types
/// of their payloads and responses, the names of its events and the schemas
/// of their data.
#[derive(Debug)]
pub struct ServiceMeta {
    pub methods: Vec<MethodMeta>,
    pub method_params: Registry,
    pub events: Vec<String>,
    pub event_structs: Registry,
}

/// The mathematical value of a `ServiceMeta`.
pub struct ServiceMetaView {
    pub methods: Seq<MethodMetaView>,
    pub method_params: Seq<DataMetaView>,
    pub events: Seq<Seq<char>>,
    pub event_structs: Seq<DataMetaView>,
}

impl View for ServiceMeta {
    type V = ServiceMetaView;

    open spec fn view(&self) -> ServiceMetaView {
        ServiceMetaView {
            methods: views(self.methods@),
            method_params: self.method_params@,
            events: views(self.events@),
            event_structs: self.event_structs@,
        }
    }
}

} // verus!
