//! The content digest: a deterministic fingerprint over the fields of a
//! source transaction that participate in the destination payload or in a
//! destination update. Equal fingerprints come only from semantically equal
//! records, which is what makes change detection sound.

use vstd::prelude::*;
use crate::text::dec_int;
use crate::text::enc_parts;
use crate::text::i64_to_dec;
use crate::text::lemma_enc_parts_injective;
use crate::text::encode_parts_exec;
use crate::text::views_of;
use crate::up_bank::general::Data;
use crate::up_bank::general::MoneyObject;
use crate::up_bank::transactions::Transaction;

verus! {

/// The view of an optional text field.
pub open spec fn opt_view(o: Option<String>) -> Option<Seq<char>> {
    match o {
        Some(s) => Some(s@),
        None => None,
    }
}

/// The view of an optional typed identifier.
pub open spec fn data_view(o: Option<Data>) -> Option<(Seq<char>, Seq<char>)> {
    match o {
        Some(d) => Some((d.dat_type@, d.id@)),
        None => None,
    }
}

/// The view of a money value.
pub open spec fn money_view(m: MoneyObject) -> (Seq<char>, Seq<char>, int) {
    (m.currency_code@, m.value@, m.value_in_base_units as int)
}

/// The view of an optional money value.
pub open spec fn opt_money_view(o: Option<MoneyObject>) -> Option<(Seq<char>, Seq<char>, int)> {
    match o {
        Some(m) => Some(money_view(m)),
        None => None,
    }
}

/// The view of the attached tags, in order.
pub open spec fn tags_view(ts: Seq<Data>) -> Seq<(Seq<char>, Seq<char>)> {
    ts.map_values(|d: Data| (d.dat_type@, d.id@))
}

pub open spec fn marker(present: bool) -> Seq<char> {
    if present {
        seq!['1']
    } else {
        seq!['0']
    }
}

pub open spec fn opt_text(o: Option<String>) -> Seq<char> {
    match o {
        Some(s) => s@,
        None => Seq::empty(),
    }
}

/// The two digest fields of one tag.
pub open spec fn tag_parts(ts: Seq<Data>) -> Seq<Seq<char>>
    decreases ts.len(),
{
    if ts.len() == 0 {
        Seq::empty()
    } else {
        seq![ts[0].dat_type@, ts[0].id@] + tag_parts(ts.drop_first())
    }
}

/// The two digest fields of an optional text: a presence marker and the
/// text itself.
pub open spec fn opt_text_parts(o: Option<String>) -> Seq<Seq<char>> {
    seq![marker(o is Some), opt_text(o)]
}

/// The digest fields of an optional typed identifier.
pub open spec fn data_parts(o: Option<Data>) -> Seq<Seq<char>> {
    match o {
        Some(d) => seq![marker(true), d.dat_type@, d.id@],
        None => seq![marker(false), Seq::empty(), Seq::empty()],
    }
}

/// The digest fields of an optional money value.
pub open spec fn money_parts(o: Option<MoneyObject>) -> Seq<Seq<char>> {
    match o {
        Some(m) => seq![marker(true), m.currency_code@, m.value@, dec_int(
            m.value_in_base_units as int,
        )],
        None => seq![marker(false), Seq::empty(), Seq::empty(), Seq::empty()],
    }
}

/// The digest fields of the record's self link.
pub open spec fn url_parts(tx: Transaction) -> Seq<Seq<char>> {
    match tx.links {
        Some(l) => match l.links_self {
            Some(s) => seq![marker(true), s@],
            None => seq![marker(false), Seq::empty()],
        },
        None => seq![marker(false), Seq::empty()],
    }
}

/// The flattened self link of the record.
pub open spec fn url_view(tx: Transaction) -> Option<Seq<char>> {
    match tx.links {
        Some(l) => opt_view(l.links_self),
        None => None,
    }
}

/// The fixed-position digest fields: everything but the tags.
pub open spec fn fixed_parts(tx: Transaction) -> Seq<Seq<char>> {
    let att = tx.attributes;
    let rel = tx.relationships;
    seq![tx.id@] + seq![att.description@] + opt_text_parts(att.raw_text) + seq![att.created_at@]
        + opt_text_parts(att.settled_at) + seq![att.amount.currency_code@]
        + seq![att.amount.value@] + seq![dec_int(att.amount.value_in_base_units as int)]
        + money_parts(att.foreign_amount) + data_parts(rel.account.data) + data_parts(
        rel.transfer_account.data,
    ) + data_parts(rel.category.data) + url_parts(tx)
}

/// Every digest field of the record: the fixed fields, then two fields for
/// each tag.
pub open spec fn digest_parts(tx: Transaction) -> Seq<Seq<char>> {
    fixed_parts(tx) + tag_parts(tx.relationships.tags.data@)
}

/// The content digest itself.
pub open spec fn fingerprint(tx: Transaction) -> Seq<char> {
    enc_parts(digest_parts(tx))
}

proof fn lemma_tag_parts_shape(ts: Seq<Data>)
    ensures
        tag_parts(ts).len() == 2 * ts.len(),
        forall|k: int|
            0 <= k < ts.len() ==> tag_parts(ts)[2 * k] == ts[k].dat_type@ && tag_parts(ts)[2 * k
                + 1] == ts[k].id@,
    decreases ts.len(),
{
    if ts.len() > 0 {
        lemma_tag_parts_shape(ts.drop_first());
        assert forall|k: int| 0 <= k < ts.len() implies tag_parts(ts)[2 * k] == ts[k].dat_type@
            && tag_parts(ts)[2 * k + 1] == ts[k].id@ by {
            if k > 0 {
                assert(tag_parts(ts)[2 * k] == tag_parts(ts.drop_first())[2 * (k - 1)]);
                assert(tag_parts(ts)[2 * k + 1] == tag_parts(ts.drop_first())[2 * (k - 1) + 1]);
                assert(ts[k] == ts.drop_first()[k - 1]);
            }
        }
    }
}

proof fn lemma_tag_parts_injective(a: Seq<Data>, b: Seq<Data>)
    requires
        tag_parts(a) == tag_parts(b),
    ensures
        tags_view(a) == tags_view(b),
{
    lemma_tag_parts_shape(a);
    lemma_tag_parts_shape(b);
    assert(a.len() == b.len());
    assert forall|k: int| 0 <= k < a.len() implies tags_view(a)[k] == tags_view(b)[k] by {
        assert(tag_parts(a)[2 * k] == tag_parts(b)[2 * k]);
        assert(tag_parts(a)[2 * k + 1] == tag_parts(b)[2 * k + 1]);
    }
    assert(tags_view(a) =~= tags_view(b));
}

/// Equal fingerprints come only from records that agree on every field the
/// digest covers: the id, the texts and timestamps, the amounts, the account
/// and transfer and category references, the self link, and the tags.
pub proof fn lemma_fingerprint_injective(a: Transaction, b: Transaction)
    requires
        fingerprint(a) == fingerprint(b),
    ensures
        a.id@ == b.id@,
        a.attributes.description@ == b.attributes.description@,
        opt_view(a.attributes.raw_text) == opt_view(b.attributes.raw_text),
        a.attributes.created_at@ == b.attributes.created_at@,
        opt_view(a.attributes.settled_at) == opt_view(b.attributes.settled_at),
        money_view(a.attributes.amount) == money_view(b.attributes.amount),
        opt_money_view(a.attributes.foreign_amount) == opt_money_view(b.attributes.foreign_amount),
        data_view(a.relationships.account.data) == data_view(b.relationships.account.data),
        data_view(a.relationships.transfer_account.data) == data_view(
            b.relationships.transfer_account.data,
        ),
        data_view(a.relationships.category.data) == data_view(b.relationships.category.data),
        url_view(a) == url_view(b),
        tags_view(a.relationships.tags.data@) == tags_view(b.relationships.tags.data@),
{
    lemma_enc_parts_injective(digest_parts(a), digest_parts(b));
    // each digest group has a fixed width, whatever the record holds
    assert((opt_text_parts(a.attributes.raw_text)).len() == 2);
    assert((opt_text_parts(a.attributes.settled_at)).len() == 2);
    assert((money_parts(a.attributes.foreign_amount)).len() == 4);
    assert((data_parts(a.relationships.account.data)).len() == 3);
    assert((data_parts(a.relationships.transfer_account.data)).len() == 3);
    assert((data_parts(a.relationships.category.data)).len() == 3);
    assert((url_parts(a)).len() == 2);
    assert((opt_text_parts(b.attributes.raw_text)).len() == 2);
    assert((opt_text_parts(b.attributes.settled_at)).len() == 2);
    assert((money_parts(b.attributes.foreign_amount)).len() == 4);
    assert((data_parts(b.relationships.account.data)).len() == 3);
    assert((data_parts(b.relationships.transfer_account.data)).len() == 3);
    assert((data_parts(b.relationships.category.data)).len() == 3);
    assert((url_parts(b)).len() == 2);
    let ap1 = seq![a.id@];
    let ap2 = ap1 + seq![a.attributes.description@];
    let ap3 = ap2 + opt_text_parts(a.attributes.raw_text);
    let ap4 = ap3 + seq![a.attributes.created_at@];
    let ap5 = ap4 + opt_text_parts(a.attributes.settled_at);
    let ap6 = ap5 + seq![a.attributes.amount.currency_code@];
    let ap7 = ap6 + seq![a.attributes.amount.value@];
    let ap8 = ap7 + seq![dec_int(a.attributes.amount.value_in_base_units as int)];
    let ap9 = ap8 + money_parts(a.attributes.foreign_amount);
    let ap10 = ap9 + data_parts(a.relationships.account.data);
    let ap11 = ap10 + data_parts(a.relationships.transfer_account.data);
    let ap12 = ap11 + data_parts(a.relationships.category.data);
    let bp1 = seq![b.id@];
    let bp2 = bp1 + seq![b.attributes.description@];
    let bp3 = bp2 + opt_text_parts(b.attributes.raw_text);
    let bp4 = bp3 + seq![b.attributes.created_at@];
    let bp5 = bp4 + opt_text_parts(b.attributes.settled_at);
    let bp6 = bp5 + seq![b.attributes.amount.currency_code@];
    let bp7 = bp6 + seq![b.attributes.amount.value@];
    let bp8 = bp7 + seq![dec_int(b.attributes.amount.value_in_base_units as int)];
    let bp9 = bp8 + money_parts(b.attributes.foreign_amount);
    let bp10 = bp9 + data_parts(b.relationships.account.data);
    let bp11 = bp10 + data_parts(b.relationships.transfer_account.data);
    let bp12 = bp11 + data_parts(b.relationships.category.data);
    assert(fixed_parts(a).len() == 25);
    assert(fixed_parts(b).len() == 25);
    assert(tag_parts(a.relationships.tags.data@).len() == tag_parts(
        b.relationships.tags.data@,
    ).len());
    // peel the groups off, widest position first
    lemma_concat_cancel(
        fixed_parts(a),
        tag_parts(a.relationships.tags.data@),
        fixed_parts(b),
        tag_parts(b.relationships.tags.data@),
    );
    assert(fixed_parts(a) == ap12 + url_parts(a));
    assert(fixed_parts(b) == bp12 + url_parts(b));
    lemma_concat_cancel(ap12, url_parts(a), bp12, url_parts(b));
    lemma_concat_cancel(ap11, data_parts(a.relationships.category.data), bp11, data_parts(b.relationships.category.data));
    lemma_concat_cancel(ap10, data_parts(a.relationships.transfer_account.data), bp10, data_parts(b.relationships.transfer_account.data));
    lemma_concat_cancel(ap9, data_parts(a.relationships.account.data), bp9, data_parts(b.relationships.account.data));
    lemma_concat_cancel(ap8, money_parts(a.attributes.foreign_amount), bp8, money_parts(b.attributes.foreign_amount));
    lemma_concat_cancel(ap7, seq![dec_int(a.attributes.amount.value_in_base_units as int)], bp7, seq![dec_int(b.attributes.amount.value_in_base_units as int)]);
    lemma_concat_cancel(ap6, seq![a.attributes.amount.value@], bp6, seq![b.attributes.amount.value@]);
    lemma_concat_cancel(ap5, seq![a.attributes.amount.currency_code@], bp5, seq![b.attributes.amount.currency_code@]);
    lemma_concat_cancel(ap4, opt_text_parts(a.attributes.settled_at), bp4, opt_text_parts(b.attributes.settled_at));
    lemma_concat_cancel(ap3, seq![a.attributes.created_at@], bp3, seq![b.attributes.created_at@]);
    lemma_concat_cancel(ap2, opt_text_parts(a.attributes.raw_text), bp2, opt_text_parts(b.attributes.raw_text));
    lemma_concat_cancel(ap1, seq![a.attributes.description@], bp1, seq![b.attributes.description@]);
    // one equal group at a time gives one agreeing field at a time
    assert((seq![a.id@])[0] == a.id@);
    assert((seq![b.id@])[0] == b.id@);
    assert((seq![a.attributes.description@])[0] == a.attributes.description@);
    assert((seq![b.attributes.description@])[0] == b.attributes.description@);
    assert((seq![a.attributes.created_at@])[0] == a.attributes.created_at@);
    assert((seq![b.attributes.created_at@])[0] == b.attributes.created_at@);
    assert((seq![a.attributes.amount.currency_code@])[0] == a.attributes.amount.currency_code@);
    assert((seq![b.attributes.amount.currency_code@])[0] == b.attributes.amount.currency_code@);
    assert((seq![a.attributes.amount.value@])[0] == a.attributes.amount.value@);
    assert((seq![b.attributes.amount.value@])[0] == b.attributes.amount.value@);
    assert((seq![dec_int(a.attributes.amount.value_in_base_units as int)])[0] == dec_int(a.attributes.amount.value_in_base_units as int));
    assert((seq![dec_int(b.attributes.amount.value_in_base_units as int)])[0] == dec_int(b.attributes.amount.value_in_base_units as int));
    crate::text::lemma_dec_int_injective(
        a.attributes.amount.value_in_base_units as int,
        b.attributes.amount.value_in_base_units as int,
    );
    lemma_opt_text_parts_inj(a.attributes.raw_text, b.attributes.raw_text);
    lemma_opt_text_parts_inj(a.attributes.settled_at, b.attributes.settled_at);
    lemma_money_parts_inj(a.attributes.foreign_amount, b.attributes.foreign_amount);
    lemma_data_parts_inj(a.relationships.account.data, b.relationships.account.data);
    lemma_data_parts_inj(
        a.relationships.transfer_account.data,
        b.relationships.transfer_account.data,
    );
    lemma_data_parts_inj(a.relationships.category.data, b.relationships.category.data);
    lemma_url_parts_inj(a, b);
    lemma_tag_parts_injective(a.relationships.tags.data@, b.relationships.tags.data@);
}

proof fn lemma_concat_cancel(
    x1: Seq<Seq<char>>,
    y1: Seq<Seq<char>>,
    x2: Seq<Seq<char>>,
    y2: Seq<Seq<char>>,
)
    requires
        x1 + y1 == x2 + y2,
        y1.len() == y2.len(),
    ensures
        x1 == x2,
        y1 == y2,
{
    assert((x1 + y1).len() == x1.len() + y1.len());
    assert((x2 + y2).len() == x2.len() + y2.len());
    assert(x1.len() == x2.len());
    assert forall|i: int| 0 <= i < x1.len() implies x1[i] == x2[i] by {
        assert((x1 + y1)[i] == x1[i]);
        assert((x2 + y2)[i] == x2[i]);
    }
    assert(x1 =~= x2);
    assert forall|i: int| 0 <= i < y1.len() implies y1[i] == y2[i] by {
        assert((x1 + y1)[x1.len() + i] == y1[i]);
        assert((x2 + y2)[x2.len() + i] == y2[i]);
    }
    assert(y1 =~= y2);
}

proof fn lemma_marker_inj(p1: bool, p2: bool)
    requires
        marker(p1) == marker(p2),
    ensures
        p1 == p2,
{
    assert(marker(true)[0] == '1');
    assert(marker(false)[0] == '0');
}

proof fn lemma_opt_text_parts_inj(o1: Option<String>, o2: Option<String>)
    requires
        opt_text_parts(o1) == opt_text_parts(o2),
    ensures
        opt_view(o1) == opt_view(o2),
{
    assert(opt_text_parts(o1)[0] == marker(o1 is Some));
    assert(opt_text_parts(o2)[0] == marker(o2 is Some));
    lemma_marker_inj(o1 is Some, o2 is Some);
    assert(opt_text_parts(o1)[1] == opt_text(o1));
    assert(opt_text_parts(o2)[1] == opt_text(o2));
}

proof fn lemma_data_parts_inj(o1: Option<Data>, o2: Option<Data>)
    requires
        data_parts(o1) == data_parts(o2),
    ensures
        data_view(o1) == data_view(o2),
{
    assert(data_parts(o1)[0] == marker(o1 is Some));
    assert(data_parts(o2)[0] == marker(o2 is Some));
    lemma_marker_inj(o1 is Some, o2 is Some);
    if o1 is Some {
        assert(data_parts(o1)[1] == o1->0.dat_type@);
        assert(data_parts(o1)[2] == o1->0.id@);
        assert(data_parts(o2)[1] == o2->0.dat_type@);
        assert(data_parts(o2)[2] == o2->0.id@);
    }
}

proof fn lemma_money_parts_inj(o1: Option<MoneyObject>, o2: Option<MoneyObject>)
    requires
        money_parts(o1) == money_parts(o2),
    ensures
        opt_money_view(o1) == opt_money_view(o2),
{
    assert(money_parts(o1)[0] == marker(o1 is Some));
    assert(money_parts(o2)[0] == marker(o2 is Some));
    lemma_marker_inj(o1 is Some, o2 is Some);
    if o1 is Some {
        assert(money_parts(o1)[1] == o1->0.currency_code@);
        assert(money_parts(o1)[2] == o1->0.value@);
        assert(money_parts(o1)[3] == dec_int(o1->0.value_in_base_units as int));
        assert(money_parts(o2)[1] == o2->0.currency_code@);
        assert(money_parts(o2)[2] == o2->0.value@);
        assert(money_parts(o2)[3] == dec_int(o2->0.value_in_base_units as int));
        crate::text::lemma_dec_int_injective(
            o1->0.value_in_base_units as int,
            o2->0.value_in_base_units as int,
        );
    }
}

proof fn lemma_url_parts_inj(a: Transaction, b: Transaction)
    requires
        url_parts(a) == url_parts(b),
    ensures
        url_view(a) == url_view(b),
{
    assert(url_parts(a)[0] == marker(url_view(a) is Some));
    assert(url_parts(b)[0] == marker(url_view(b) is Some));
    lemma_marker_inj(url_view(a) is Some, url_view(b) is Some);
    if url_view(a) is Some {
        assert(url_parts(a)[1] == url_view(a)->0);
        assert(url_parts(b)[1] == url_view(b)->0);
    }
}

fn marker_string(present: bool) -> (r: String)
    ensures
        r@ == marker(present),
{
    proof {
        reveal_strlit("1");
        reveal_strlit("0");
        assert("1"@ =~= seq!['1']);
        assert("0"@ =~= seq!['0']);
    }
    if present {
        String::from_str("1")
    } else {
        String::from_str("0")
    }
}

fn push_text(v: &mut Vec<String>, s: String)
    ensures
        views_of(final(v)@) == views_of(old(v)@) + seq![s@],
{
    v.push(s);
    proof {
        assert(views_of(v@) =~= views_of(old(v)@) + seq![s@]);
    }
}

fn push_opt_text(v: &mut Vec<String>, o: &Option<String>)
    ensures
        views_of(final(v)@) == views_of(old(v)@) + opt_text_parts(*o),
{
    match o {
        Some(s) => {
            v.push(marker_string(true));
            v.push(s.clone());
        }
        None => {
            v.push(marker_string(false));
            v.push(String::new());
        }
    }
    proof {
        assert(views_of(v@) =~= views_of(old(v)@) + opt_text_parts(*o));
    }
}

fn push_data_parts(v: &mut Vec<String>, o: &Option<Data>)
    ensures
        views_of(final(v)@) == views_of(old(v)@) + data_parts(*o),
{
    match o {
        Some(d) => {
            v.push(marker_string(true));
            v.push(d.dat_type.clone());
            v.push(d.id.clone());
        }
        None => {
            v.push(marker_string(false));
            v.push(String::new());
            v.push(String::new());
        }
    }
    proof {
        assert(views_of(v@) =~= views_of(old(v)@) + data_parts(*o));
    }
}

fn push_money_parts(v: &mut Vec<String>, o: &Option<MoneyObject>)
    ensures
        views_of(final(v)@) == views_of(old(v)@) + money_parts(*o),
{
    match o {
        Some(m) => {
            v.push(marker_string(true));
            v.push(m.currency_code.clone());
            v.push(m.value.clone());
            v.push(i64_to_dec(m.value_in_base_units));
        }
        None => {
            v.push(marker_string(false));
            v.push(String::new());
            v.push(String::new());
            v.push(String::new());
        }
    }
    proof {
        assert(views_of(v@) =~= views_of(old(v)@) + money_parts(*o));
    }
}

fn push_url_parts(v: &mut Vec<String>, tx: &Transaction)
    ensures
        views_of(final(v)@) == views_of(old(v)@) + url_parts(*tx),
{
    match &tx.links {
        Some(l) => match &l.links_self {
            Some(s) => {
                v.push(marker_string(true));
                v.push(s.clone());
            }
            None => {
                v.push(marker_string(false));
                v.push(String::new());
            }
        },
        None => {
            v.push(marker_string(false));
            v.push(String::new());
        }
    }
    proof {
        assert(views_of(v@) =~= views_of(old(v)@) + url_parts(*tx));
    }
}

/// Computes the content digest of a record.
pub fn compute_fingerprint(tx: &Transaction) -> (r: String)
    ensures
        r@ == fingerprint(*tx),
{
    let mut v: Vec<String> = Vec::new();
    push_text(&mut v, tx.id.clone());
    proof {
        assert(views_of(v@) =~= seq![tx.id@]);
    }
    push_text(&mut v, tx.attributes.description.clone());
    push_opt_text(&mut v, &tx.attributes.raw_text);
    push_text(&mut v, tx.attributes.created_at.clone());
    push_opt_text(&mut v, &tx.attributes.settled_at);
    push_text(&mut v, tx.attributes.amount.currency_code.clone());
    push_text(&mut v, tx.attributes.amount.value.clone());
    push_text(&mut v, i64_to_dec(tx.attributes.amount.value_in_base_units));
    push_money_parts(&mut v, &tx.attributes.foreign_amount);
    push_data_parts(&mut v, &tx.relationships.account.data);
    push_data_parts(&mut v, &tx.relationships.transfer_account.data);
    push_data_parts(&mut v, &tx.relationships.category.data);
    push_url_parts(&mut v, tx);
    assert(views_of(v@) == fixed_parts(*tx));

    let tags = &tx.relationships.tags.data;
    let n: usize = tags.len();
    let mut i: usize = 0;
    while i < n
        invariant
            i <= n,
            n == tags@.len(),
            views_of(v@) == fixed_parts(*tx) + tag_parts(tags@.subrange(0, i as int)),
        decreases n - i,
    {
        push_text(&mut v, tags[i].dat_type.clone());
        push_text(&mut v, tags[i].id.clone());
        proof {
            lemma_tag_parts_snoc(tags@.subrange(0, i as int), tags@[i as int]);
            assert(tags@.subrange(0, i + 1) =~= tags@.subrange(0, i as int).push(
                tags@[i as int],
            ));
            assert(views_of(v@) =~= fixed_parts(*tx) + tag_parts(tags@.subrange(0, i + 1)));
        }
        i = i + 1;
    }
    proof {
        assert(tags@.subrange(0, tags@.len() as int) =~= tags@);
        assert(views_of(v@) == digest_parts(*tx));
    }
    encode_parts_exec(&v)
}

proof fn lemma_tag_parts_snoc(ts: Seq<Data>, d: Data)
    ensures
        tag_parts(ts.push(d)) == tag_parts(ts) + seq![d.dat_type@, d.id@],
    decreases ts.len(),
{
    if ts.len() == 0 {
        assert(ts.push(d).drop_first() =~= Seq::<Data>::empty());
        assert(ts.push(d)[0] == d);
        assert(tag_parts(ts.push(d)) == seq![d.dat_type@, d.id@] + tag_parts(
            Seq::<Data>::empty(),
        ));
        assert(tag_parts(Seq::<Data>::empty()) == Seq::<Seq<char>>::empty());
        assert(tag_parts(ts) == Seq::<Seq<char>>::empty());
        assert(tag_parts(ts.push(d)) =~= tag_parts(ts) + seq![d.dat_type@, d.id@]);
    } else {
        assert(ts.push(d).drop_first() =~= ts.drop_first().push(d));
        lemma_tag_parts_snoc(ts.drop_first(), d);
        assert(ts.push(d)[0] == ts[0]);
        assert(tag_parts(ts.push(d)) == seq![ts[0].dat_type@, ts[0].id@] + (tag_parts(
            ts.drop_first(),
        ) + seq![d.dat_type@, d.id@]));
        vstd::seq_lib::lemma_concat_associative(
            seq![ts[0].dat_type@, ts[0].id@],
            tag_parts(ts.drop_first()),
            seq![d.dat_type@, d.id@],
        );
        assert(tag_parts(ts.push(d)) == tag_parts(ts) + seq![d.dat_type@, d.id@]);
    }
}

} // verus!
