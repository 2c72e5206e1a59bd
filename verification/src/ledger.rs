//! The unspent outputs of each account, as the node keeps them: spending the inputs of
//! a transaction and crediting the outputs of a block.
use vstd::prelude::*;

use crate::amount::{Amount, decimal_checked_add, lift};

verus! {

/// One unspent output owned by an account.
#[derive(Clone, Debug)]
pub struct UtxoData {
    pub transaction_hash: String,
    pub unspent: Amount,
    pub output_hash: String,
    pub block_number: i64,
}

/// The unspent outputs of the account `public_key`.
#[derive(Clone, Debug)]
pub struct UTXO {
    pub public_key: String,
    pub utxos: Vec<UtxoData>,
}

pub struct UtxoDataView {
    pub transaction_hash: Seq<char>,
    pub unspent: Amount,
    pub output_hash: Seq<char>,
    pub block_number: i64,
}

pub struct UtxoView {
    pub public_key: Seq<char>,
    pub utxos: Seq<UtxoDataView>,
}

impl View for UtxoData {
    type V = UtxoDataView;

    open spec fn view(&self) -> UtxoDataView {
        UtxoDataView {
            transaction_hash: self.transaction_hash@,
            unspent: self.unspent,
            output_hash: self.output_hash@,
            block_number: self.block_number,
        }
    }
}

pub open spec fn utxo_views(v: Seq<UtxoData>) -> Seq<UtxoDataView> {
    v.map_values(|u: UtxoData| u@)
}

impl View for UTXO {
    type V = UtxoView;

    open spec fn view(&self) -> UtxoView {
        UtxoView { public_key: self.public_key@, utxos: utxo_views(self.utxos@) }
    }
}

pub open spec fn account_views(v: Seq<UTXO>) -> Seq<UtxoView> {
    v.map_values(|a: UTXO| a@)
}

/// The first index, from `i` on, of an output with hash `h`.
pub open spec fn output_position(utxos: Seq<UtxoDataView>, h: Seq<char>, i: int) -> Option<int>
    decreases utxos.len() - i,
{
    if i < 0 || i >= utxos.len() {
        None
    } else if utxos[i].output_hash == h {
        Some(i)
    } else {
        output_position(utxos, h, i + 1)
    }
}

/// The first index, from `i` on, of the account of `pk`.
pub open spec fn account_position(accounts: Seq<UtxoView>, pk: Seq<char>, i: int) -> Option<int>
    decreases accounts.len() - i,
{
    if i < 0 || i >= accounts.len() {
        None
    } else if accounts[i].public_key == pk {
        Some(i)
    } else {
        account_position(accounts, pk, i + 1)
    }
}

/// Spending `inputs` from `utxos`: each input takes out the first output with its output
/// hash; nothing when one of them has no such output.
pub open spec fn spend_all(utxos: Seq<UtxoDataView>, inputs: Seq<UtxoDataView>) -> Option<Seq<UtxoDataView>>
    decreases inputs.len(),
{
    if inputs.len() == 0 {
        Some(utxos)
    } else {
        match output_position(utxos, inputs[0].output_hash, 0) {
            Some(p) => spend_all(utxos.remove(p), inputs.drop_first()),
            None => None,
        }
    }
}

/// Spending what can be spent: each input takes out the first output with its output
/// hash, and an input with no such output is passed over.
pub open spec fn spend_found(utxos: Seq<UtxoDataView>, inputs: Seq<UtxoDataView>) -> Seq<UtxoDataView>
    decreases inputs.len(),
{
    if inputs.len() == 0 {
        utxos
    } else {
        match output_position(utxos, inputs[0].output_hash, 0) {
            Some(p) => spend_found(utxos.remove(p), inputs.drop_first()),
            None => spend_found(utxos, inputs.drop_first()),
        }
    }
}

/// Crediting the output `u` to the account `pk`: when the account is there and holds no
/// output with `u`'s output hash, `u` goes at the end of its outputs; when it holds one,
/// nothing changes; when there is no such account, a new one holding `u` goes at the end.
pub open spec fn credit(accounts: Seq<UtxoView>, pk: Seq<char>, u: UtxoDataView) -> Seq<UtxoView> {
    match account_position(accounts, pk, 0) {
        Some(k) => {
            if output_position(accounts[k].utxos, u.output_hash, 0) is Some {
                accounts
            } else {
                accounts.update(k, UtxoView { public_key: accounts[k].public_key, utxos: accounts[k].utxos.push(u) })
            }
        },
        None => accounts.push(UtxoView { public_key: pk, utxos: seq![u] }),
    }
}

proof fn lemma_output_position(utxos: Seq<UtxoDataView>, h: Seq<char>, i: int)
    requires
        0 <= i,
    ensures
        output_position(utxos, h, i) matches Some(p) ==> i <= p < utxos.len() && utxos[p].output_hash == h,
        output_position(utxos, h, i) is None ==> forall|j: int| i <= j < utxos.len() ==> utxos[j].output_hash != h,
    decreases utxos.len() - i,
{
    if 0 <= i < utxos.len() && utxos[i].output_hash != h {
        lemma_output_position(utxos, h, i + 1);
    }
}

proof fn lemma_output_position_found(utxos: Seq<UtxoDataView>, h: Seq<char>, i: int, j: int)
    requires
        0 <= i <= j < utxos.len(),
        utxos[j].output_hash == h,
    ensures
        output_position(utxos, h, i) is Some,
    decreases j - i,
{
    if utxos[i].output_hash != h {
        lemma_output_position_found(utxos, h, i + 1, j);
    }
}

proof fn lemma_account_position(accounts: Seq<UtxoView>, pk: Seq<char>, i: int)
    requires
        0 <= i,
    ensures
        account_position(accounts, pk, i) matches Some(p) ==> i <= p < accounts.len() && accounts[p].public_key == pk,
        account_position(accounts, pk, i) is None ==> forall|j: int| i <= j < accounts.len() ==> accounts[j].public_key != pk,
    decreases accounts.len() - i,
{
    if 0 <= i < accounts.len() && accounts[i].public_key != pk {
        lemma_account_position(accounts, pk, i + 1);
    }
}

proof fn lemma_account_position_prefix(accounts: Seq<UtxoView>, pk: Seq<char>, i: int, k: int, x: UtxoView)
    requires
        0 <= i,
        account_position(accounts, pk, i) == Some(k),
        x.public_key == accounts[k].public_key,
    ensures
        account_position(accounts.update(k, x), pk, i) == Some(k),
    decreases accounts.len() - i,
{
    lemma_account_position(accounts, pk, i);
    if i < k {
        lemma_account_position_prefix(accounts, pk, i + 1, k, x);
    }
}

proof fn lemma_account_position_push(accounts: Seq<UtxoView>, pk: Seq<char>, i: int, x: UtxoView)
    requires
        0 <= i <= accounts.len(),
        account_position(accounts, pk, i) is None,
        x.public_key == pk,
    ensures
        account_position(accounts.push(x), pk, i) == Some(accounts.len() as int),
    decreases accounts.len() - i,
{
    lemma_account_position(accounts, pk, i);
    if i < accounts.len() {
        lemma_account_position_push(accounts, pk, i + 1, x);
    }
}

pub proof fn lemma_account_position_bounds(accounts: Seq<UtxoView>, pk: Seq<char>)
    ensures
        account_position(accounts, pk, 0) matches Some(p) ==> 0 <= p < accounts.len() && accounts[p].public_key == pk,
{
    lemma_account_position(accounts, pk, 0);
}

/// The account of `pk` (the first one) holds an output with hash `h`.
pub open spec fn holds_output(accounts: Seq<UtxoView>, pk: Seq<char>, h: Seq<char>) -> bool {
    match account_position(accounts, pk, 0) {
        Some(k) => output_position(accounts[k].utxos, h, 0) is Some,
        None => false,
    }
}

proof fn lemma_account_position_update(accounts: Seq<UtxoView>, k: int, x: UtxoView, pk: Seq<char>, i: int)
    requires
        0 <= i,
        0 <= k < accounts.len(),
        x.public_key == accounts[k].public_key,
    ensures
        account_position(accounts.update(k, x), pk, i) == account_position(accounts, pk, i),
    decreases accounts.len() - i,
{
    if i < accounts.len() {
        lemma_account_position_update(accounts, k, x, pk, i + 1);
    }
}

proof fn lemma_account_position_push_found(accounts: Seq<UtxoView>, x: UtxoView, pk: Seq<char>, i: int)
    requires
        0 <= i,
        account_position(accounts, pk, i) is Some,
    ensures
        account_position(accounts.push(x), pk, i) == account_position(accounts, pk, i),
    decreases accounts.len() - i,
{
    if i < accounts.len() && accounts[i].public_key != pk {
        lemma_account_position_push_found(accounts, x, pk, i + 1);
    }
}

proof fn lemma_output_position_push_found(utxos: Seq<UtxoDataView>, y: UtxoDataView, h: Seq<char>, i: int)
    requires
        0 <= i,
        output_position(utxos, h, i) is Some,
    ensures
        output_position(utxos.push(y), h, i) == output_position(utxos, h, i),
    decreases utxos.len() - i,
{
    if i < utxos.len() && utxos[i].output_hash != h {
        lemma_output_position_push_found(utxos, y, h, i + 1);
    }
}

/// A credited output is held afterwards by the account of its address.
pub proof fn law_credit_holds_output(accounts: Seq<UtxoView>, pk: Seq<char>, u: UtxoDataView)
    ensures
        holds_output(credit(accounts, pk, u), pk, u.output_hash),
{
    lemma_account_position(accounts, pk, 0);
    match account_position(accounts, pk, 0) {
        Some(k) => {
            if output_position(accounts[k].utxos, u.output_hash, 0) is None {
                let x = UtxoView { public_key: accounts[k].public_key, utxos: accounts[k].utxos.push(u) };
                lemma_account_position_update(accounts, k, x, pk, 0);
                lemma_output_position_push(accounts[k].utxos, u, 0);
                assert(accounts.update(k, x)[k] == x);
            }
        },
        None => {
            let x = UtxoView { public_key: pk, utxos: seq![u] };
            lemma_account_position_push(accounts, pk, 0, x);
            lemma_output_position_found(x.utxos, u.output_hash, 0, 0);
            assert(accounts.push(x)[accounts.len() as int] == x);
        },
    }
}

/// Crediting an output takes no output away from any account.
pub proof fn law_credit_keeps_held(accounts: Seq<UtxoView>, pk: Seq<char>, u: UtxoDataView, pk2: Seq<char>, h: Seq<char>)
    requires
        holds_output(accounts, pk2, h),
    ensures
        holds_output(credit(accounts, pk, u), pk2, h),
{
    lemma_account_position(accounts, pk, 0);
    lemma_account_position(accounts, pk2, 0);
    let k2 = account_position(accounts, pk2, 0).unwrap();
    match account_position(accounts, pk, 0) {
        Some(k) => {
            if output_position(accounts[k].utxos, u.output_hash, 0) is None {
                let x = UtxoView { public_key: accounts[k].public_key, utxos: accounts[k].utxos.push(u) };
                lemma_account_position_update(accounts, k, x, pk2, 0);
                if k2 == k {
                    lemma_output_position_push_found(accounts[k].utxos, u, h, 0);
                    assert(accounts.update(k, x)[k] == x);
                } else {
                    assert(accounts.update(k, x)[k2] == accounts[k2]);
                }
            }
        },
        None => {
            let x = UtxoView { public_key: pk, utxos: seq![u] };
            lemma_account_position_push_found(accounts, x, pk2, 0);
            assert(accounts.push(x)[k2] == accounts[k2]);
        },
    }
}

/// No two outputs of `utxos` share an output hash.
pub open spec fn distinct_outputs(utxos: Seq<UtxoDataView>) -> bool {
    forall|i: int, j: int| 0 <= i < utxos.len() && 0 <= j < utxos.len() && i != j
        ==> #[trigger] utxos[i].output_hash != #[trigger] utxos[j].output_hash
}

/// In every account, no two outputs share an output hash.
pub open spec fn ledger_distinct(accounts: Seq<UtxoView>) -> bool {
    forall|k: int| 0 <= k < accounts.len() ==> distinct_outputs(#[trigger] accounts[k].utxos)
}

/// Crediting an output keeps the output hashes of every account distinct.
pub proof fn law_credit_keeps_outputs_distinct(accounts: Seq<UtxoView>, pk: Seq<char>, u: UtxoDataView)
    requires
        ledger_distinct(accounts),
    ensures
        ledger_distinct(credit(accounts, pk, u)),
{
    lemma_account_position(accounts, pk, 0);
    match account_position(accounts, pk, 0) {
        Some(k) => {
            let old_utxos = accounts[k].utxos;
            lemma_output_position(old_utxos, u.output_hash, 0);
            if output_position(old_utxos, u.output_hash, 0) is None {
                let x = UtxoView { public_key: accounts[k].public_key, utxos: old_utxos.push(u) };
                let r = accounts.update(k, x);
                assert(distinct_outputs(x.utxos)) by {
                    assert(distinct_outputs(old_utxos));
                    assert forall|i: int, j: int| 0 <= i < x.utxos.len() && 0 <= j < x.utxos.len() && i != j
                        implies #[trigger] x.utxos[i].output_hash != #[trigger] x.utxos[j].output_hash by {
                        if i < old_utxos.len() && j < old_utxos.len() {
                            assert(x.utxos[i] == old_utxos[i]);
                            assert(x.utxos[j] == old_utxos[j]);
                        } else if i < old_utxos.len() {
                            assert(x.utxos[i] == old_utxos[i]);
                        } else {
                            assert(x.utxos[j] == old_utxos[j]);
                        }
                    }
                }
                assert forall|m: int| 0 <= m < r.len() implies distinct_outputs(#[trigger] r[m].utxos) by {
                    if m != k {
                        assert(r[m] == accounts[m]);
                    }
                }
            }
        },
        None => {
            let x = UtxoView { public_key: pk, utxos: seq![u] };
            let r = accounts.push(x);
            assert forall|m: int| 0 <= m < r.len() implies distinct_outputs(#[trigger] r[m].utxos) by {
                if m < accounts.len() {
                    assert(r[m] == accounts[m]);
                }
            }
        },
    }
}

/// Crediting the same output twice leaves the accounts as crediting it once.
pub proof fn law_credit_idempotent(accounts: Seq<UtxoView>, pk: Seq<char>, u: UtxoDataView)
    ensures
        credit(credit(accounts, pk, u), pk, u) == credit(accounts, pk, u),
{
    lemma_account_position(accounts, pk, 0);
    match account_position(accounts, pk, 0) {
        Some(k) => {
            if output_position(accounts[k].utxos, u.output_hash, 0) is None {
                let x = UtxoView { public_key: accounts[k].public_key, utxos: accounts[k].utxos.push(u) };
                lemma_account_position_prefix(accounts, pk, 0, k, x);
                let once = accounts.update(k, x);
                assert(once[k] == x);
                lemma_output_position_found(x.utxos, u.output_hash, 0, accounts[k].utxos.len() as int);
            }
        },
        None => {
            let x = UtxoView { public_key: pk, utxos: seq![u] };
            lemma_account_position_push(accounts, pk, 0, x);
            lemma_output_position_found(x.utxos, u.output_hash, 0, 0);
        },
    }
}

proof fn lemma_output_position_push(utxos: Seq<UtxoDataView>, u: UtxoDataView, i: int)
    requires
        0 <= i <= utxos.len(),
        output_position(utxos, u.output_hash, i) is None,
    ensures
        output_position(utxos.push(u), u.output_hash, i) == Some(utxos.len() as int),
    decreases utxos.len() - i,
{
    lemma_output_position(utxos, u.output_hash, i);
    if i < utxos.len() {
        lemma_output_position_push(utxos, u, i + 1);
    }
}

/// Spending the inputs all-or-nothing and spending what can be spent agree whenever
/// every input is there: a transaction admitted to the mempool spends the same outputs
/// when its block is checked.
pub proof fn law_spend_all_agrees_with_spend_found(utxos: Seq<UtxoDataView>, inputs: Seq<UtxoDataView>)
    ensures
        spend_all(utxos, inputs) matches Some(left) ==> spend_found(utxos, inputs) == left,
    decreases inputs.len(),
{
    if inputs.len() > 0 {
        match output_position(utxos, inputs[0].output_hash, 0) {
            Some(p) => law_spend_all_agrees_with_spend_found(utxos.remove(p), inputs.drop_first()),
            None => {},
        }
    }
}

/// An output credited to an account that held no output with its hash can be spent
/// again, and spending it gives back the account's outputs as they were.
pub proof fn law_spend_undoes_credit(utxos: Seq<UtxoDataView>, u: UtxoDataView)
    requires
        output_position(utxos, u.output_hash, 0) is None,
    ensures
        spend_all(utxos.push(u), seq![u]) == Some(utxos),
{
    lemma_output_position_push(utxos, u, 0);
    let s = seq![u];
    assert(s[0] == u);
    assert(s.drop_first() =~= Seq::<UtxoDataView>::empty());
    assert(utxos.push(u).remove(utxos.len() as int) =~= utxos);
    assert(spend_all(utxos, Seq::<UtxoDataView>::empty()) == Some(utxos));
    assert(spend_all(utxos.push(u), s) == spend_all(utxos, s.drop_first()));
}

impl UtxoData {
    /// A copy of this output.
    pub fn duplicate(&self) -> (r: UtxoData)
        ensures
            r@ == self@,
    {
        UtxoData {
            transaction_hash: self.transaction_hash.clone(),
            unspent: self.unspent,
            output_hash: self.output_hash.clone(),
            block_number: self.block_number,
        }
    }
}

/// A copy of a list of outputs.
pub fn duplicate_utxos(v: &Vec<UtxoData>) -> (r: Vec<UtxoData>)
    ensures
        utxo_views(r@) == utxo_views(v@),
{
    let mut r: Vec<UtxoData> = Vec::new();
    let mut i: usize = 0;
    while i < v.len()
        invariant
            i <= v@.len(),
            r@.len() == i,
            forall|j: int| 0 <= j < i ==> (#[trigger] r@[j])@ == v@[j]@,
        decreases v.len() - i,
    {
        r.push(v[i].duplicate());
        i = i + 1;
    }
    assert(utxo_views(r@) =~= utxo_views(v@));
    r
}

/// The first index of an output with hash `h`.
fn find_output(utxos: &Vec<UtxoData>, h: &String) -> (r: Option<usize>)
    ensures
        r matches Some(p) ==> output_position(utxo_views(utxos@), h@, 0) == Some(p as int),
        r is None ==> output_position(utxo_views(utxos@), h@, 0) is None,
{
    let ghost v = utxo_views(utxos@);
    let mut i: usize = 0;
    while i < utxos.len()
        invariant
            i <= utxos@.len(),
            v == utxo_views(utxos@),
            output_position(v, h@, 0) == output_position(v, h@, i as int),
        decreases utxos.len() - i,
    {
        if utxos[i].output_hash == *h {
            return Some(i);
        }
        i = i + 1;
    }
    None
}

/// The first index of the account of `pk`.
pub fn find_account(accounts: &Vec<UTXO>, pk: &String) -> (r: Option<usize>)
    ensures
        r matches Some(p) ==> account_position(account_views(accounts@), pk@, 0) == Some(p as int),
        r is None ==> account_position(account_views(accounts@), pk@, 0) is None,
{
    let ghost v = account_views(accounts@);
    let mut i: usize = 0;
    while i < accounts.len()
        invariant
            i <= accounts@.len(),
            v == account_views(accounts@),
            account_position(v, pk@, 0) == account_position(v, pk@, i as int),
        decreases accounts.len() - i,
    {
        if accounts[i].public_key == *pk {
            return Some(i);
        }
        i = i + 1;
    }
    None
}

impl UTXO {
    /// Spends all of `inputs` from this account (see `spend_all`): the account as it is
    /// after, or nothing when an input has no unspent output with its hash.
    pub fn spend_inputs(&self, inputs: &Vec<UtxoData>) -> (r: Option<UTXO>)
        ensures
            match spend_all(self@.utxos, utxo_views(inputs@)) {
                Some(left) => r matches Some(a) && a@ == (UtxoView { public_key: self@.public_key, utxos: left }),
                None => r is None,
            },
    {
        let mut utxos = duplicate_utxos(&self.utxos);
        let ghost ins = utxo_views(inputs@);
        assert(ins.skip(0) =~= ins);
        let mut i: usize = 0;
        while i < inputs.len()
            invariant
                i <= inputs@.len(),
                ins == utxo_views(inputs@),
                spend_all(self@.utxos, ins) == spend_all(utxo_views(utxos@), ins.skip(i as int)),
            decreases inputs.len() - i,
        {
            assert(ins.skip(i as int)[0] == ins[i as int]);
            assert(ins.skip(i as int).drop_first() =~= ins.skip(i + 1));
            match find_output(&utxos, &inputs[i].output_hash) {
                Some(p) => {
                    proof { lemma_output_position(utxo_views(utxos@), inputs@[i as int].output_hash@, 0); }
                    let ghost before = utxo_views(utxos@);
                    utxos.remove(p);
                    assert(utxo_views(utxos@) =~= before.remove(p as int));
                },
                None => {
                    return None;
                },
            }
            i = i + 1;
        }
        assert(ins.skip(inputs.len() as int) =~= Seq::<UtxoDataView>::empty());
        let a = UTXO { public_key: self.public_key.clone(), utxos };
        Some(a)
    }

    /// Spends what can be spent of `inputs` (see `spend_found`).
    pub fn spend_available(&mut self, inputs: &Vec<UtxoData>)
        ensures
            final(self)@ == (UtxoView { public_key: old(self)@.public_key, utxos: spend_found(old(self)@.utxos, utxo_views(inputs@)) }),
    {
        let ghost ins = utxo_views(inputs@);
        let ghost start = old(self)@.utxos;
        assert(ins.skip(0) =~= ins);
        let mut i: usize = 0;
        while i < inputs.len()
            invariant
                i <= inputs@.len(),
                ins == utxo_views(inputs@),
                self.public_key@ == old(self)@.public_key,
                spend_found(start, ins) == spend_found(utxo_views(self.utxos@), ins.skip(i as int)),
                start == old(self)@.utxos,
            decreases inputs.len() - i,
        {
            assert(ins.skip(i as int)[0] == ins[i as int]);
            assert(ins.skip(i as int).drop_first() =~= ins.skip(i + 1));
            match find_output(&self.utxos, &inputs[i].output_hash) {
                Some(p) => {
                    proof { lemma_output_position(utxo_views(self.utxos@), inputs@[i as int].output_hash@, 0); }
                    let ghost before = utxo_views(self.utxos@);
                    self.utxos.remove(p);
                    assert(utxo_views(self.utxos@) =~= before.remove(p as int));
                },
                None => {},
            }
            i = i + 1;
        }
        assert(ins.skip(inputs.len() as int) =~= Seq::<UtxoDataView>::empty());
    }
}

/// The sum of the outputs' amounts, added in order from zero with `Decimal`'s checked
/// addition; nothing once a sum overflows.
pub open spec fn balance_of(utxos: Seq<UtxoDataView>) -> Option<Amount>
    decreases utxos.len(),
{
    if utxos.len() == 0 {
        Some(Amount { mantissa: 0, scale: 0 })
    } else {
        match balance_of(utxos.drop_last()) {
            Some(s) => lift(decimal_checked_add(s.pair(), utxos.last().unspent.pair())),
            None => None,
        }
    }
}

impl UTXO {
    /// The account's balance (see `balance_of`).
    pub fn balance(&self) -> (r: Option<Amount>)
        requires
            forall|i: int| 0 <= i < self.utxos@.len() ==> (#[trigger] self.utxos@[i]).unspent.wf(),
        ensures
            r == balance_of(self@.utxos),
    {
        let ghost v = self@.utxos;
        let mut sum = Amount::zero();
        let mut i: usize = 0;
        while i < self.utxos.len()
            invariant
                i <= self.utxos@.len(),
                v == self@.utxos,
                forall|j: int| 0 <= j < self.utxos@.len() ==> (#[trigger] self.utxos@[j]).unspent.wf(),
                balance_of(v.take(i as int)) == Some(sum),
                sum.wf(),
            decreases self.utxos.len() - i,
        {
            assert(v.take(i + 1).drop_last() =~= v.take(i as int));
            assert(v[i as int].unspent == self.utxos@[i as int].unspent);
            match sum.checked_add(&self.utxos[i].unspent) {
                Some(s) => {
                    sum = s;
                },
                None => {
                    proof { lemma_balance_stays_none(v, i as int + 1); }
                    return None;
                },
            }
            i = i + 1;
        }
        assert(v.take(v.len() as int) =~= v);
        Some(sum)
    }
}

proof fn lemma_balance_stays_none(v: Seq<UtxoDataView>, k: int)
    requires
        0 <= k <= v.len(),
        balance_of(v.take(k)) is None,
    ensures
        balance_of(v) is None,
    decreases v.len() - k,
{
    if k < v.len() {
        assert(v.take(k + 1).drop_last() =~= v.take(k));
        lemma_balance_stays_none(v, k + 1);
    } else {
        assert(v.take(k) =~= v);
    }
}

/// Credits the output `u` to the account `public_key` (see `credit`).
pub fn credit_output(accounts: &mut Vec<UTXO>, public_key: &String, u: UtxoData)
    ensures
        account_views(final(accounts)@) == credit(account_views(old(accounts)@), public_key@, u@),
{
    let ghost before = account_views(accounts@);
    match find_account(accounts, public_key) {
        Some(k) => {
            proof { lemma_account_position(before, public_key@, 0); }
            match find_output(&accounts[k].utxos, &u.output_hash) {
                Some(_) => {},
                None => {
                    let mut acc = accounts.remove(k);
                    let ghost acc_v = acc@;
                    acc.utxos.push(u);
                    assert(utxo_views(acc.utxos@) =~= acc_v.utxos.push(u@));
                    accounts.insert(k, acc);
                    assert(account_views(accounts@) =~= before.update(k as int, UtxoView { public_key: before[k as int].public_key, utxos: before[k as int].utxos.push(u@) }));
                },
            }
        },
        None => {
            let mut utxos: Vec<UtxoData> = Vec::new();
            utxos.push(u);
            let acc = UTXO { public_key: public_key.clone(), utxos };
            assert(utxo_views(acc.utxos@) =~= seq![u@]);
            accounts.push(acc);
            assert(account_views(accounts@) =~= before.push(UtxoView { public_key: public_key@, utxos: seq![u@] }));
        },
    }
}

} // verus!
