//! The registry of versioned models, keyed by `name:version` and listed in
//! key order.
use vstd::prelude::*;
use vstd::string::StringExecFns;

verus! {

/// A model that turns an input text into a result text.
pub trait AIModel {
    fn process(&self, input: &str) -> String;
}

/// Lexicographic order of keys, by character code.
pub open spec fn key_lt(a: Seq<char>, b: Seq<char>) -> bool
    decreases a.len(),
{
    if a.len() == 0 {
        b.len() > 0
    } else if b.len() == 0 {
        false
    } else if a[0] != b[0] {
        (a[0] as u32) < (b[0] as u32)
    } else {
        key_lt(a.drop_first(), b.drop_first())
    }
}

proof fn lemma_key_lt_irreflexive(a: Seq<char>)
    ensures
        !key_lt(a, a),
    decreases a.len(),
{
    if a.len() > 0 {
        lemma_key_lt_irreflexive(a.drop_first());
    }
}

proof fn lemma_key_lt_total(a: Seq<char>, b: Seq<char>)
    ensures
        a == b || key_lt(a, b) || key_lt(b, a),
    decreases a.len(),
{
    if a.len() > 0 && b.len() > 0 && a[0] == b[0] {
        lemma_key_lt_total(a.drop_first(), b.drop_first());
        if a.drop_first() == b.drop_first() {
            assert(a =~= seq![a[0]] + a.drop_first());
            assert(b =~= seq![b[0]] + b.drop_first());
        }
    } else if a.len() > 0 && b.len() > 0 {
        assert((a[0] as u32) != (b[0] as u32)) by {
            vstd::utf8::char_u32_cast(a[0], a[0] as u32);
            vstd::utf8::char_u32_cast(b[0], b[0] as u32);
        }
    } else if a.len() == 0 && b.len() == 0 {
        assert(a =~= b);
    }
}

proof fn lemma_key_lt_transitive(a: Seq<char>, b: Seq<char>, c: Seq<char>)
    requires
        key_lt(a, b),
        key_lt(b, c),
    ensures
        key_lt(a, c),
    decreases a.len(),
{
    if a.len() > 0 && b.len() > 0 && c.len() > 0 && a[0] == b[0] && b[0] == c[0] {
        lemma_key_lt_transitive(a.drop_first(), b.drop_first(), c.drop_first());
    }
}

/// Keys in strictly increasing order.
pub open spec fn sorted_keys(keys: Seq<Seq<char>>) -> bool {
    forall|i: int, j: int| 0 <= i < j < keys.len() ==> key_lt(#[trigger] keys[i], #[trigger] keys[j])
}

/// The key of a model version: `name:version`.
pub open spec fn model_key(name: Seq<char>, version: Seq<char>) -> Seq<char> {
    name + seq![':'] + version
}

/// Whether `a` comes before `b` in key order.
fn key_less(a: &String, b: &String) -> (r: bool)
    ensures
        r == key_lt(a@, b@),
{
    let la = a.as_str().unicode_len();
    let lb = b.as_str().unicode_len();
    let mut i: usize = 0;
    assert(a@.skip(0) =~= a@ && b@.skip(0) =~= b@);
    while i < la && i < lb
        invariant
            la == a@.len(),
            lb == b@.len(),
            0 <= i <= la,
            i <= lb,
            key_lt(a@, b@) == key_lt(a@.skip(i as int), b@.skip(i as int)),
        decreases la - i,
    {
        let ca = a.as_str().get_char(i);
        let cb = b.as_str().get_char(i);
        assert(a@.skip(i as int)[0] == ca && b@.skip(i as int)[0] == cb);
        if ca != cb {
            return (ca as u32) < (cb as u32);
        }
        assert(a@.skip(i as int).drop_first() =~= a@.skip(i as int + 1));
        assert(b@.skip(i as int).drop_first() =~= b@.skip(i as int + 1));
        i = i + 1;
    }
    i < lb
}

/// The characters of each key.
pub open spec fn key_views(v: Seq<String>) -> Seq<Seq<char>> {
    v.map_values(|k: String| k@)
}

/// Models by key.
pub struct ModelManager<M> {
    keys: Vec<String>,
    models: Vec<M>,
}

impl<M> ModelManager<M> {
    /// The keys, in order.
    pub closed spec fn keys(&self) -> Seq<Seq<char>> {
        key_views(self.keys@)
    }

    /// The models, in the order of their keys.
    pub closed spec fn models(&self) -> Seq<M> {
        self.models@
    }

    pub open spec fn wf(&self) -> bool {
        &&& self.keys().len() == self.models().len()
        &&& sorted_keys(self.keys())
    }

    pub fn new() -> (r: ModelManager<M>)
        ensures
            r.wf(),
            r.keys().len() == 0,
    {
        ModelManager { keys: Vec::new(), models: Vec::new() }
    }

    /// Position of the first key not below `key`.
    fn position(&self, key: &String) -> (r: usize)
        requires
            self.wf(),
        ensures
            r <= self.keys().len(),
            forall|i: int| 0 <= i < r ==> key_lt(#[trigger] self.keys()[i], key@),
            r < self.keys().len() ==> !key_lt(self.keys()[r as int], key@),
    {
        let mut i: usize = 0;
        while i < self.keys.len()
            invariant
                0 <= i <= self.keys@.len(),
                self.keys().len() == self.keys@.len(),
                forall|p: int| 0 <= p < i ==> key_lt(#[trigger] self.keys()[p], key@),
            decreases self.keys@.len() - i,
        {
            if !key_less(&self.keys[i], key) {
                return i;
            }
            i = i + 1;
        }
        i
    }

    /// Registers `model` under `name:version`, replacing a model already
    /// registered under that key.
    pub fn register_model(&mut self, name: String, version: String, model: M)
        requires
            old(self).wf(),
        ensures
            final(self).wf(),
            ({
                let key = model_key(name@, version@);
                let ks = old(self).keys();
                let ms = old(self).models();
                ||| exists|i: int| 0 <= i < ks.len() && ks[i] == key
                    && final(self).keys() == ks && final(self).models() == ms.update(i, model)
                ||| (forall|i: int| 0 <= i < ks.len() ==> ks[i] != key) && exists|i: int| 0 <= i <= ks.len()
                    && final(self).keys() == ks.insert(i, key) && final(self).models() == ms.insert(i, model)
            }),
    {
        let key = name.concat(":").concat(version.as_str());
        proof {
            reveal_strlit(":");
            assert(key@ =~= model_key(name@, version@));
        }
        let pos = self.position(&key);
        let ghost ks = self.keys();
        if pos < self.keys.len() && self.keys[pos] == key {
            self.models.set(pos, model);
            assert(self.keys() == ks);
            return;
        }
        proof {
            assert forall|i: int| 0 <= i < ks.len() implies ks[i] != key@ by {
                if i < pos {
                    lemma_key_lt_irreflexive(key@);
                } else if i == pos {
                } else {
                    lemma_key_lt_total(ks[pos as int], key@);
                    if ks[i] == key@ {
                        assert(key_lt(ks[pos as int], ks[i]));
                    }
                }
            }
        }
        self.keys.insert(pos, key);
        self.models.insert(pos, model);
        proof {
            let nk = self.keys();
            assert(nk =~= ks.insert(pos as int, key@));
            assert forall|i: int, j: int| 0 <= i < j < nk.len() implies key_lt(#[trigger] nk[i], #[trigger] nk[j]) by {
                if j < pos {
                } else if j == pos {
                    assert(key_lt(ks[i], key@));
                } else if i < pos {
                    assert(key_lt(ks[i], key@));
                    if j - 1 == pos {
                        lemma_key_lt_total(ks[pos as int], key@);
                    } else {
                        lemma_key_lt_total(ks[pos as int], key@);
                        assert(key_lt(ks[pos as int], ks[j - 1]));
                        lemma_key_lt_transitive(key@, ks[pos as int], ks[j - 1]);
                    }
                    lemma_key_lt_transitive(ks[i], key@, ks[j - 1]);
                } else if i == pos {
                    lemma_key_lt_total(ks[pos as int], key@);
                    if j - 1 > pos {
                        assert(key_lt(ks[pos as int], ks[j - 1]));
                        lemma_key_lt_transitive(key@, ks[pos as int], ks[j - 1]);
                    }
                } else {
                    assert(nk[i] == ks[i - 1] && nk[j] == ks[j - 1]);
                }
            }
        }
    }

    /// The model registered under `name:version`.
    pub fn get_model(&self, name: &str, version: &str) -> (r: Option<&M>)
        requires
            self.wf(),
        ensures
            r matches Some(m) ==> exists|i: int| 0 <= i < self.keys().len()
                && self.keys()[i] == model_key(name@, version@) && *m == self.models()[i],
            r is None ==> forall|i: int| 0 <= i < self.keys().len() ==> self.keys()[i] != model_key(name@, version@),
    {
        let key = String::from_str(name).concat(":").concat(version);
        proof {
            reveal_strlit(":");
            assert(key@ =~= model_key(name@, version@));
        }
        let pos = self.position(&key);
        if pos < self.keys.len() && self.keys[pos] == key {
            return Some(&self.models[pos]);
        }
        proof {
            let ks = self.keys();
            assert forall|i: int| 0 <= i < ks.len() implies ks[i] != model_key(name@, version@) by {
                if i < pos {
                    lemma_key_lt_irreflexive(key@);
                } else if i > pos {
                    lemma_key_lt_total(ks[pos as int], key@);
                    if ks[i] == key@ {
                        assert(key_lt(ks[pos as int], ks[i]));
                    }
                }
            }
        }
        None
    }

    /// The keys of all registered models, in order.
    pub fn list_models(&self) -> (r: Vec<String>)
        ensures
            key_views(r@) == self.keys(),
    {
        let mut out: Vec<String> = Vec::new();
        let mut i: usize = 0;
        while i < self.keys.len()
            invariant
                0 <= i <= self.keys@.len(),
                out@.len() == i,
                key_views(out@) == self.keys().take(i as int),
            decreases self.keys@.len() - i,
        {
            let c = self.keys[i].clone();
            assert(c@ == self.keys@[i as int]@);
            let ghost before = out@;
            out.push(c);
            assert(out@ == before.push(c));
            assert(key_views(out@) =~= self.keys().take(i as int + 1)) by {
                assert forall|p: int| 0 <= p < i + 1 implies #[trigger] key_views(out@)[p] == self.keys().take(i as int + 1)[p] by {
                    if p < i {
                        assert(out@[p] == before[p]);
                        assert(key_views(before)[p] == self.keys().take(i as int)[p]);
                    }
                }
            }
            i = i + 1;
        }
        assert(self.keys().take(i as int) =~= self.keys());
        out
    }
}

} // verus!
