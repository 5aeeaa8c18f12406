//! The order in which entities of one kind are taken up: by the place at
//! which they are declared, and by name where the place is the same.

use crate::classify::{Classified, EntityBuckets};
use crate::entity::{
    ExtensionSqlEntity, PgAggregateEntity, PgExternEntity, PgTriggerEntity, PostgresEnumEntity,
    PostgresHashEntity, PostgresOrdEntity, PostgresTypeEntity, SchemaEntity,
};
use crate::text::chars_of;
use vstd::prelude::*;
use vstd::seq_lib::{to_multiset_build, to_multiset_insert};

verus! {

/// Something that is declared at a place: in a file, at a line, under a
/// name or a path.
pub trait Placed {
    /// The file, the line and the name or path.
    spec fn place(&self) -> (Seq<char>, u32, Seq<char>);

    /// The file.
    fn file(&self) -> (r: &String)
        ensures
            r@ == self.place().0,
    ;

    /// The line.
    fn line(&self) -> (r: u32)
        ensures
            r == self.place().1,
    ;

    /// The name or path.
    fn label(&self) -> (r: &String)
        ensures
            r@ == self.place().2,
    ;
}

impl Placed for SchemaEntity {
    open spec fn place(&self) -> (Seq<char>, u32, Seq<char>) {
        (self.file@, self.line, self.name@)
    }

    fn file(&self) -> (r: &String) {
        &self.file
    }

    fn line(&self) -> (r: u32) {
        self.line
    }

    fn label(&self) -> (r: &String) {
        &self.name
    }
}

impl Placed for ExtensionSqlEntity {
    open spec fn place(&self) -> (Seq<char>, u32, Seq<char>) {
        (self.file@, self.line, self.full_path@)
    }

    fn file(&self) -> (r: &String) {
        &self.file
    }

    fn line(&self) -> (r: u32) {
        self.line
    }

    fn label(&self) -> (r: &String) {
        &self.full_path
    }
}

impl Placed for PgExternEntity {
    open spec fn place(&self) -> (Seq<char>, u32, Seq<char>) {
        (self.file@, self.line, self.full_path@)
    }

    fn file(&self) -> (r: &String) {
        &self.file
    }

    fn line(&self) -> (r: u32) {
        self.line
    }

    fn label(&self) -> (r: &String) {
        &self.full_path
    }
}

impl Placed for PostgresTypeEntity {
    open spec fn place(&self) -> (Seq<char>, u32, Seq<char>) {
        (self.file@, self.line, self.full_path@)
    }

    fn file(&self) -> (r: &String) {
        &self.file
    }

    fn line(&self) -> (r: u32) {
        self.line
    }

    fn label(&self) -> (r: &String) {
        &self.full_path
    }
}

impl Placed for PostgresEnumEntity {
    open spec fn place(&self) -> (Seq<char>, u32, Seq<char>) {
        (self.file@, self.line, self.full_path@)
    }

    fn file(&self) -> (r: &String) {
        &self.file
    }

    fn line(&self) -> (r: u32) {
        self.line
    }

    fn label(&self) -> (r: &String) {
        &self.full_path
    }
}

impl Placed for PostgresOrdEntity {
    open spec fn place(&self) -> (Seq<char>, u32, Seq<char>) {
        (self.file@, self.line, self.full_path@)
    }

    fn file(&self) -> (r: &String) {
        &self.file
    }

    fn line(&self) -> (r: u32) {
        self.line
    }

    fn label(&self) -> (r: &String) {
        &self.full_path
    }
}

impl Placed for PostgresHashEntity {
    open spec fn place(&self) -> (Seq<char>, u32, Seq<char>) {
        (self.file@, self.line, self.full_path@)
    }

    fn file(&self) -> (r: &String) {
        &self.file
    }

    fn line(&self) -> (r: u32) {
        self.line
    }

    fn label(&self) -> (r: &String) {
        &self.full_path
    }
}

impl Placed for PgAggregateEntity {
    open spec fn place(&self) -> (Seq<char>, u32, Seq<char>) {
        (self.file@, self.line, self.full_path@)
    }

    fn file(&self) -> (r: &String) {
        &self.file
    }

    fn line(&self) -> (r: u32) {
        self.line
    }

    fn label(&self) -> (r: &String) {
        &self.full_path
    }
}

impl Placed for PgTriggerEntity {
    open spec fn place(&self) -> (Seq<char>, u32, Seq<char>) {
        (self.file@, self.line, self.full_path@)
    }

    fn file(&self) -> (r: &String) {
        &self.file
    }

    fn line(&self) -> (r: u32) {
        self.line
    }

    fn label(&self) -> (r: &String) {
        &self.full_path
    }
}

/// Whether `a` stands before `b` in the dictionary, given that they agree
/// up to `i`: at the first character in which they differ `a` has the lower
/// one, or `a` ends there and `b` goes on.
pub open spec fn text_before_from(a: Seq<char>, b: Seq<char>, i: int) -> bool
    decreases a.len() - i,
{
    if i < 0 || i >= b.len() {
        false
    } else if i >= a.len() {
        true
    } else if a[i] != b[i] {
        a[i] < b[i]
    } else {
        text_before_from(a, b, i + 1)
    }
}

/// Whether `a` stands before `b` in the dictionary.
pub open spec fn text_before(a: Seq<char>, b: Seq<char>) -> bool {
    text_before_from(a, b, 0)
}

/// Whether the place `a` comes before the place `b`: in a file that stands
/// before in the dictionary; or in the same file at a lower line; or at the
/// same line under a name that stands before in the dictionary.
pub open spec fn place_before(
    a: (Seq<char>, u32, Seq<char>),
    b: (Seq<char>, u32, Seq<char>),
) -> bool {
    ||| text_before(a.0, b.0)
    ||| a.0 == b.0 && a.1 < b.1
    ||| a.0 == b.0 && a.1 == b.1 && text_before(a.2, b.2)
}

/// Of two texts that agree up to `i` exactly one holds: the first stands
/// before the second, the second before the first, or they are the same.
pub proof fn lemma_text_order_total(a: Seq<char>, b: Seq<char>, i: int)
    requires
        0 <= i <= a.len(),
        i <= b.len(),
        forall|j: int| 0 <= j < i ==> a[j] == b[j],
    ensures
        text_before_from(a, b, i) || text_before_from(b, a, i) || a == b,
        !(text_before_from(a, b, i) && text_before_from(b, a, i)),
        a == b ==> !text_before_from(a, b, i),
    decreases a.len() - i,
{
    if i >= a.len() || i >= b.len() {
        if a.len() == b.len() {
            assert(a =~= b);
        }
    } else if a[i] == b[i] {
        lemma_text_order_total(a, b, i + 1);
    }
}

/// Standing before in the dictionary carries over: from `a` before `b` and
/// `b` before `c` follows `a` before `c`.
pub proof fn lemma_text_order_transitive(a: Seq<char>, b: Seq<char>, c: Seq<char>, i: int)
    requires
        0 <= i,
        text_before_from(a, b, i),
        text_before_from(b, c, i),
    ensures
        text_before_from(a, c, i),
    decreases a.len() - i,
{
    if i < a.len() && a[i] == b[i] && b[i] == c[i] {
        lemma_text_order_transitive(a, b, c, i + 1);
    }
}

/// Of two places one at most comes before the other.
pub proof fn lemma_place_order_one_way(
    a: (Seq<char>, u32, Seq<char>),
    b: (Seq<char>, u32, Seq<char>),
)
    requires
        place_before(a, b),
    ensures
        !place_before(b, a),
{
    lemma_text_order_total(a.0, b.0, 0);
    lemma_text_order_total(a.2, b.2, 0);
}

/// What lies before something that does not come after a third lies before
/// the third.
pub proof fn lemma_place_order(
    a: (Seq<char>, u32, Seq<char>),
    b: (Seq<char>, u32, Seq<char>),
    c: (Seq<char>, u32, Seq<char>),
)
    requires
        place_before(a, b),
        !place_before(c, b),
    ensures
        place_before(a, c),
        !place_before(c, a),
{
    lemma_text_order_total(b.0, c.0, 0);
    lemma_text_order_total(a.0, c.0, 0);
    lemma_text_order_total(a.0, b.0, 0);
    lemma_text_order_total(b.2, c.2, 0);
    lemma_text_order_total(a.2, c.2, 0);
    lemma_text_order_total(a.2, b.2, 0);
    if text_before(a.0, b.0) && text_before(b.0, c.0) {
        lemma_text_order_transitive(a.0, b.0, c.0, 0);
    }
    if text_before(c.0, a.0) && text_before(a.0, b.0) {
        lemma_text_order_transitive(c.0, a.0, b.0, 0);
    }
    if text_before(a.2, b.2) && text_before(b.2, c.2) {
        lemma_text_order_transitive(a.2, b.2, c.2, 0);
    }
    if text_before(c.2, a.2) && text_before(a.2, b.2) {
        lemma_text_order_transitive(c.2, a.2, b.2, 0);
    }
}

/// Where `x` goes into `sorted`, looking from `i` on: before the first
/// entry that is declared after it, else at the end.
pub open spec fn slot_from<T: Placed>(sorted: Seq<T>, x: T, i: int) -> int
    decreases sorted.len() - i,
{
    if i < 0 || i >= sorted.len() {
        sorted.len() as int
    } else if place_before(x.place(), sorted[i].place()) {
        i
    } else {
        slot_from(sorted, x, i + 1)
    }
}

/// `sorted` with `x` put in: behind everything that is not declared after
/// it.
pub open spec fn with_placed<T: Placed>(sorted: Seq<T>, x: T) -> Seq<T> {
    sorted.insert(slot_from(sorted, x, 0), x)
}

/// The first `n` items by the place at which they are declared; items
/// declared at one place under one name stay in the order in which they
/// came.
pub open spec fn by_place<T: Placed>(items: Seq<T>, n: int) -> Seq<T>
    decreases n,
{
    if n <= 0 {
        Seq::empty()
    } else {
        with_placed(by_place(items, n - 1), items[n - 1])
    }
}

/// Whether nothing stands behind something that is declared after it.
pub open spec fn in_order<T: Placed>(s: Seq<T>) -> bool {
    forall|i: int, j: int|
        0 <= i < j < s.len() ==> !place_before((#[trigger] s[j]).place(), (#[trigger] s[i]).place())
}

/// The slot lies in the sequence or at its end; nothing before it is
/// declared after `x`, and what is at it is.
pub proof fn lemma_slot<T: Placed>(sorted: Seq<T>, x: T, i: int)
    requires
        0 <= i <= sorted.len(),
    ensures
        i <= slot_from(sorted, x, i) <= sorted.len(),
        forall|j: int|
            i <= j < slot_from(sorted, x, i) ==> !place_before(
                x.place(),
                (#[trigger] sorted[j]).place(),
            ),
        slot_from(sorted, x, i) < sorted.len() ==> place_before(
            x.place(),
            sorted[slot_from(sorted, x, i)].place(),
        ),
    decreases sorted.len() - i,
{
    if i < sorted.len() && !place_before(x.place(), sorted[i].place()) {
        lemma_slot(sorted, x, i + 1);
    }
}

/// Putting an item into a sequence that is in order leaves it in order.
pub proof fn lemma_with_placed_in_order<T: Placed>(sorted: Seq<T>, x: T)
    requires
        in_order(sorted),
    ensures
        in_order(with_placed(sorted, x)),
{
    lemma_slot(sorted, x, 0);
    let p = slot_from(sorted, x, 0);
    let after = with_placed(sorted, x);
    assert forall|i: int, j: int| 0 <= i < j < after.len() implies !place_before(
        (#[trigger] after[j]).place(),
        (#[trigger] after[i]).place(),
    ) by {
        if j == p {
            assert(after[i] == sorted[i]);
        } else if i == p {
            assert(after[j] == sorted[j - 1]);
            if j - 1 > p {
                assert(!place_before(sorted[j - 1].place(), sorted[p].place()));
                lemma_place_order(x.place(), sorted[p].place(), sorted[j - 1].place());
            } else {
                lemma_place_order_one_way(x.place(), sorted[p].place());
            }
        } else {
            let i0 = if i < p {
                i
            } else {
                i - 1
            };
            let j0 = if j < p {
                j
            } else {
                j - 1
            };
            assert(after[i] == sorted[i0] && after[j] == sorted[j0]);
        }
    }
}

/// The items by place are in order and are the items, each as often as it
/// came.
pub proof fn lemma_by_place<T: Placed>(items: Seq<T>, n: int)
    requires
        0 <= n <= items.len(),
    ensures
        in_order(by_place(items, n)),
        by_place(items, n).len() == n,
        by_place(items, n).to_multiset() == items.take(n).to_multiset(),
    decreases n,
{
    if n > 0 {
        lemma_by_place(items, n - 1);
        let before = by_place(items, n - 1);
        lemma_with_placed_in_order(before, items[n - 1]);
        lemma_slot(before, items[n - 1], 0);
        to_multiset_insert(before, slot_from(before, items[n - 1], 0), items[n - 1]);
        to_multiset_build(items.take(n - 1), items[n - 1]);
        assert(items.take(n) =~= items.take(n - 1).push(items[n - 1]));
    } else {
        assert(items.take(0) =~= Seq::<T>::empty());
    }
}

/// Whether `a` stands before `b` in the dictionary.
pub fn stands_before(a: &String, b: &String) -> (r: bool)
    ensures
        r == text_before(a@, b@),
{
    let first = chars_of(a.as_str());
    let second = chars_of(b.as_str());
    let mut i: usize = 0;
    while i < first.len() && i < second.len()
        invariant
            i <= first.len(),
            i <= second.len(),
            first@ == a@,
            second@ == b@,
            text_before_from(a@, b@, i as int) == text_before(a@, b@),
        decreases first.len() - i,
    {
        if first[i] != second[i] {
            return first[i] < second[i];
        }
        i += 1;
    }
    i < second.len()
}

/// Whether `a` is declared before `b`.
pub fn declared_before<T: Placed>(a: &T, b: &T) -> (r: bool)
    ensures
        r == place_before(a.place(), b.place()),
{
    if stands_before(a.file(), b.file()) {
        true
    } else if *a.file() == *b.file() {
        a.line() < b.line() || (a.line() == b.line() && stands_before(a.label(), b.label()))
    } else {
        false
    }
}

/// The items by the place at which they are declared; items declared at one
/// place under one name stay in the order in which they came.
pub fn sort_by_place<T: Placed>(items: Vec<T>) -> (sorted: Vec<T>)
    ensures
        sorted@ == by_place(items@, items@.len() as int),
        in_order(sorted@),
        sorted@.to_multiset() == items@.to_multiset(),
{
    let mut sorted: Vec<T> = Vec::new();
    for item in it: items
        invariant
            it.seq() == items@,
            sorted@ == by_place(items@, it.index() as int),
            sorted@.len() == it.index(),
    {
        let mut at: usize = 0;
        while at < sorted.len() && !declared_before(&item, &sorted[at])
            invariant
                at <= sorted.len(),
                slot_from(sorted@, item, at as int) == slot_from(sorted@, item, 0),
            decreases sorted.len() - at,
        {
            at += 1;
        }
        sorted.insert(at, item);
    }
    proof {
        lemma_by_place(items@, items@.len() as int);
        assert(items@.take(items@.len() as int) =~= items@);
    }
    sorted
}

/// The buckets with each in the order in which its entities are declared.
pub open spec fn arranged(c: Classified) -> Classified {
    Classified {
        control: c.control,
        schemas: by_place(c.schemas, c.schemas.len() as int),
        extension_sqls: by_place(c.extension_sqls, c.extension_sqls.len() as int),
        externs: by_place(c.externs, c.externs.len() as int),
        types: by_place(c.types, c.types.len() as int),
        enums: by_place(c.enums, c.enums.len() as int),
        ords: by_place(c.ords, c.ords.len() as int),
        hashes: by_place(c.hashes, c.hashes.len() as int),
        aggregates: by_place(c.aggregates, c.aggregates.len() as int),
        triggers: by_place(c.triggers, c.triggers.len() as int),
    }
}

/// Puts each bucket in the order in which its entities are declared.
pub fn arrange(buckets: EntityBuckets) -> (r: EntityBuckets)
    ensures
        r@ == arranged(buckets@),
{
    let EntityBuckets {
        control,
        schemas,
        extension_sqls,
        externs,
        types,
        enums,
        ords,
        hashes,
        aggregates,
        triggers,
    } = buckets;
    EntityBuckets {
        control,
        schemas: sort_by_place(schemas),
        extension_sqls: sort_by_place(extension_sqls),
        externs: sort_by_place(externs),
        types: sort_by_place(types),
        enums: sort_by_place(enums),
        ords: sort_by_place(ords),
        hashes: sort_by_place(hashes),
        aggregates: sort_by_place(aggregates),
        triggers: sort_by_place(triggers),
    }
}

} // verus!
