//! The reduced, reusable form of a message: an ordered list of
//! (condition-set, text) pairs, and its evaluation against an oracle.

use vstd::prelude::*;

use super::condition::{sp_cond_of_if_param, Answers, Condition, ConditionAnswer, DynamicTextAnswer};
use super::types::{
    lemma_process_thens_extend, sp_process_if_else, sp_process_thens, view_condition_text,
    view_condition_texts, view_text, ConditionState, ConditionText, SpecConditionText, SpecIfElse,
    SpecProcessError, SpecText, Text,
};

verus! {

// ---------------------------------------------------------------------------
// Evaluation, as a mathematical function.
// ---------------------------------------------------------------------------

/// Do all required condition values hold under oracle `a`?
pub open spec fn sp_conds_hold<C: ConditionAnswer>(a: &C, conds: Seq<ConditionState>) -> bool {
    forall|k: int|
        0 <= k < conds.len() ==> a.spec_as_bool((#[trigger] conds[k]).cond) == conds[k].is_true
}

/// The texts of the entries whose conditions hold under `a`, in order.
pub open spec fn sp_selected<C: ConditionAnswer>(a: &C, l: Seq<SpecConditionText>) -> Seq<SpecText>
    decreases l.len(),
{
    if l.len() == 0 {
        Seq::empty()
    } else {
        let rest = sp_selected(a, l.drop_first());
        if sp_conds_hold(a, l[0].conds) {
            seq![l[0].text] + rest
        } else {
            rest
        }
    }
}

/// The value of one piece of text under oracle `a`.
pub open spec fn sp_text_value<A: DynamicTextAnswer>(a: &A, t: SpecText) -> Seq<char> {
    match t {
        SpecText::Static(s) => s,
        SpecText::Dynamic(d) => a.spec_as_string(d),
    }
}

/// The final output: the texts of the entries whose conditions hold,
/// resolved against `a` and concatenated in source order.
pub open spec fn sp_eval_texts<A: ConditionAnswer + DynamicTextAnswer>(
    a: &A,
    l: Seq<SpecConditionText>,
) -> Seq<char>
    decreases l.len(),
{
    if l.len() == 0 {
        Seq::empty()
    } else {
        let rest = sp_eval_texts(a, l.drop_first());
        if sp_conds_hold(a, l[0].conds) {
            sp_text_value(a, l[0].text) + rest
        } else {
            rest
        }
    }
}

// ---------------------------------------------------------------------------
// Evaluation laws.
// ---------------------------------------------------------------------------

/// Selection distributes over concatenation, keeping order.
pub proof fn lemma_selected_append<C: ConditionAnswer>(
    a: &C,
    l1: Seq<SpecConditionText>,
    l2: Seq<SpecConditionText>,
)
    ensures
        sp_selected(a, l1 + l2) == sp_selected(a, l1) + sp_selected(a, l2),
    decreases l1.len(),
{
    if l1.len() == 0 {
        assert(l1 + l2 =~= l2);
        assert(Seq::<SpecText>::empty() + sp_selected(a, l2) =~= sp_selected(a, l2));
    } else {
        lemma_selected_append(a, l1.drop_first(), l2);
        assert((l1 + l2)[0] == l1[0]);
        assert((l1 + l2).drop_first() =~= l1.drop_first() + l2);
        if sp_conds_hold(a, l1[0].conds) {
            assert(seq![l1[0].text] + (sp_selected(a, l1.drop_first()) + sp_selected(a, l2)) =~= (
            seq![l1[0].text] + sp_selected(a, l1.drop_first())) + sp_selected(a, l2));
        }
    }
}

/// Output text concatenates in source order: evaluating a concatenation
/// yields the concatenation of the evaluations.
pub proof fn lemma_eval_append<A: ConditionAnswer + DynamicTextAnswer>(
    a: &A,
    l1: Seq<SpecConditionText>,
    l2: Seq<SpecConditionText>,
)
    ensures
        sp_eval_texts(a, l1 + l2) == sp_eval_texts(a, l1) + sp_eval_texts(a, l2),
    decreases l1.len(),
{
    if l1.len() == 0 {
        assert(l1 + l2 =~= l2);
        assert(Seq::<char>::empty() + sp_eval_texts(a, l2) =~= sp_eval_texts(a, l2));
    } else {
        lemma_eval_append(a, l1.drop_first(), l2);
        assert((l1 + l2)[0] == l1[0]);
        assert((l1 + l2).drop_first() =~= l1.drop_first() + l2);
        if sp_conds_hold(a, l1[0].conds) {
            assert(sp_text_value(a, l1[0].text) + (sp_eval_texts(a, l1.drop_first())
                + sp_eval_texts(a, l2)) =~= (sp_text_value(a, l1[0].text) + sp_eval_texts(
                a,
                l1.drop_first(),
            )) + sp_eval_texts(a, l2));
        }
    }
}

/// A list none of whose entries is selected contributes no output at all.
pub proof fn lemma_eval_none_selected<A: ConditionAnswer + DynamicTextAnswer>(
    a: &A,
    l: Seq<SpecConditionText>,
)
    requires
        forall|k: int| 0 <= k < l.len() ==> !sp_conds_hold(a, (#[trigger] l[k]).conds),
    ensures
        sp_eval_texts(a, l) == Seq::<char>::empty(),
    decreases l.len(),
{
    if l.len() > 0 {
        assert(!sp_conds_hold(a, l[0].conds));
        assert forall|k: int| 0 <= k < l.drop_first().len() implies !sp_conds_hold(
            a,
            (#[trigger] l.drop_first()[k]).conds,
        ) by {
            assert(l.drop_first()[k] == l[k + 1]);
        }
        lemma_eval_none_selected(a, l.drop_first());
    }
}

// ---------------------------------------------------------------------------
// The executable form.
// ---------------------------------------------------------------------------

/// Do all required condition values of `conds` hold under `a`?
fn conds_hold<C: ConditionAnswer>(a: &C, conds: &Vec<ConditionState>) -> (b: bool)
    ensures
        b == sp_conds_hold(a, conds@),
{
    let mut i: usize = 0;
    while i < conds.len()
        invariant
            i <= conds.len(),
            forall|k: int|
                0 <= k < i ==> a.spec_as_bool((#[trigger] conds@[k]).cond) == conds@[k].is_true,
        decreases conds.len() - i,
    {
        let cs = conds[i];
        if a.as_bool(&cs.cond) != cs.is_true {
            return false;
        }
        i += 1;
    }
    true
}

/// The reduced form of one message: reusable and immutable. Built once by
/// reduction; evaluated any number of times.
#[derive(Debug, Clone, PartialEq)]
pub struct ConditionTexts(Vec<ConditionText>);

impl View for ConditionTexts {
    type V = Seq<SpecConditionText>;

    closed spec fn view(&self) -> Seq<SpecConditionText> {
        view_condition_texts(self.0@)
    }
}

impl ConditionTexts {
    /// Wrap an ordered list of condition texts.
    pub fn new(texts: Vec<ConditionText>) -> (r: ConditionTexts)
        ensures
            r@ == view_condition_texts(texts@),
    {
        ConditionTexts(texts)
    }

    /// Hand the ordered list back out.
    pub fn into_inner(self) -> (r: Vec<ConditionText>)
        ensures
            view_condition_texts(r@) == self@,
    {
        self.0
    }

    /// The number of condition texts held.
    pub fn len(&self) -> (n: usize)
        ensures
            n == self@.len(),
    {
        self.0.len()
    }

    /// Evaluate against an oracle: concatenate, in source order, the value
    /// of every entry whose conditions all hold.
    pub fn evaluate<A: Answers>(&self, answers: &A) -> (r: String)
        ensures
            r@ == sp_eval_texts(answers, self@),
    {
        eval_texts_vec(answers, &self.0)
    }
}

/// Evaluate an ordered list of condition texts against an oracle.
fn eval_texts_vec<A: Answers>(answers: &A, l: &Vec<ConditionText>) -> (r: String)
    ensures
        r@ == sp_eval_texts(answers, view_condition_texts(l@)),
{
    let ghost vl = view_condition_texts(l@);
    let mut out = String::new();
    let mut i: usize = 0;
    proof {
        assert(vl.subrange(0, 0) =~= Seq::<SpecConditionText>::empty());
    }
    while i < l.len()
        invariant
            i <= l.len(),
            vl == view_condition_texts(l@),
            vl.len() == l@.len(),
            out@ == sp_eval_texts(answers, vl.subrange(0, i as int)),
        decreases l.len() - i,
    {
        proof {
            lemma_eval_append(answers, vl.subrange(0, i as int), seq![vl[i as int]]);
            assert(vl.subrange(0, i as int) + seq![vl[i as int]] =~= vl.subrange(0, i as int + 1));
            reveal_with_fuel(sp_eval_texts, 2);
            assert(seq![vl[i as int]].drop_first() =~= Seq::<SpecConditionText>::empty());
            assert(vl[i as int] == view_condition_text(l@[i as int]));
        }
        let entry = &l[i];
        if conds_hold(answers, &entry.conds) {
            match &entry.text {
                Text::Static(s) => {
                    out.append(s.as_str());
                },
                Text::Dynamic(d) => {
                    let resolved = answers.as_string(d);
                    out.append(resolved.as_str());
                },
            }
            proof {
                assert(sp_eval_texts(answers, seq![vl[i as int]]) =~= sp_text_value(
                    answers,
                    vl[i as int].text,
                ));
            }
        } else {
            proof {
                assert(sp_eval_texts(answers, seq![vl[i as int]]) =~= Seq::<char>::empty());
                assert(out@ + Seq::<char>::empty() =~= out@);
            }
        }
        i += 1;
    }
    proof {
        assert(vl.subrange(0, l@.len() as int) =~= vl);
    }
    out
}


// ---------------------------------------------------------------------------
// Exclusivity of if-else branches.
// ---------------------------------------------------------------------------

/// For an if-else whose branches reduce successfully, any oracle includes
/// text from exactly one branch: every entry of the other branch is
/// excluded, and the construct's whole output is the chosen branch's
/// output. The branch condition values `(c, true)` and `(c, false)` are
/// mutually exclusive by construction.
pub proof fn lemma_if_else_exclusive<A: ConditionAnswer + DynamicTextAnswer>(
    a: &A,
    ie: SpecIfElse,
    conds: Seq<ConditionState>,
    c: Condition,
    l1: Seq<SpecConditionText>,
    l2: Seq<SpecConditionText>,
)
    requires
        sp_cond_of_if_param(ie.if_cond) == Some(c),
        sp_process_thens(ie.if_then, conds.push(ConditionState { cond: c, is_true: true }))
            == Ok::<Seq<SpecConditionText>, SpecProcessError>(l1),
        sp_process_thens(ie.else_then, conds.push(ConditionState { cond: c, is_true: false }))
            == Ok::<Seq<SpecConditionText>, SpecProcessError>(l2),
    ensures
        sp_process_if_else(ie, conds) == Ok::<Seq<SpecConditionText>, SpecProcessError>(l1 + l2),
        forall|k1: int, k2: int|
            0 <= k1 < l1.len() && 0 <= k2 < l2.len() ==> !(sp_conds_hold(a, l1[k1].conds)
                && sp_conds_hold(a, l2[k2].conds)),
        a.spec_as_bool(c) ==> sp_eval_texts(a, l1 + l2) == sp_eval_texts(a, l1),
        !a.spec_as_bool(c) ==> sp_eval_texts(a, l1 + l2) == sp_eval_texts(a, l2),
{
    let if_cs = ConditionState { cond: c, is_true: true };
    let else_cs = ConditionState { cond: c, is_true: false };
    let if_conds = conds.push(if_cs);
    let else_conds = conds.push(else_cs);
    lemma_process_thens_extend(ie.if_then, if_conds);
    lemma_process_thens_extend(ie.else_then, else_conds);
    let n = conds.len() as int;
    assert forall|k: int| 0 <= k < l1.len() && sp_conds_hold(
        a,
        (#[trigger] l1[k]).conds,
    ) implies a.spec_as_bool(c) == true by {
        assert(l1[k].conds.subrange(0, n + 1) == if_conds);
        assert(l1[k].conds[n] == if_conds[n]);
        assert(l1[k].conds[n] == if_cs);
        assert(a.spec_as_bool(l1[k].conds[n].cond) == l1[k].conds[n].is_true);
    }
    assert forall|k: int| 0 <= k < l2.len() && sp_conds_hold(
        a,
        (#[trigger] l2[k]).conds,
    ) implies a.spec_as_bool(c) == false by {
        assert(l2[k].conds.subrange(0, n + 1) == else_conds);
        assert(l2[k].conds[n] == else_conds[n]);
        assert(l2[k].conds[n] == else_cs);
        assert(a.spec_as_bool(l2[k].conds[n].cond) == l2[k].conds[n].is_true);
    }
    lemma_eval_append(a, l1, l2);
    if a.spec_as_bool(c) {
        lemma_eval_none_selected(a, l2);
        assert(sp_eval_texts(a, l1) + Seq::<char>::empty() =~= sp_eval_texts(a, l1));
    } else {
        lemma_eval_none_selected(a, l1);
        assert(Seq::<char>::empty() + sp_eval_texts(a, l2) =~= sp_eval_texts(a, l2));
    }
}


// ---------------------------------------------------------------------------
// Handler-based access to the selected texts.
// ---------------------------------------------------------------------------

/// The texts (as stored values) of the entries whose conditions hold, in
/// order.
pub open spec fn sp_selected_texts<C: ConditionAnswer>(a: &C, l: Seq<ConditionText>) -> Seq<Text>
    decreases l.len(),
{
    if l.len() == 0 {
        Seq::empty()
    } else {
        let rest = sp_selected_texts(a, l.drop_first());
        if sp_conds_hold(a, l[0].conds@) {
            seq![l[0].text] + rest
        } else {
            rest
        }
    }
}

/// Stored-value selection distributes over concatenation.
pub proof fn lemma_selected_texts_append<C: ConditionAnswer>(
    a: &C,
    l1: Seq<ConditionText>,
    l2: Seq<ConditionText>,
)
    ensures
        sp_selected_texts(a, l1 + l2) == sp_selected_texts(a, l1) + sp_selected_texts(a, l2),
    decreases l1.len(),
{
    if l1.len() == 0 {
        assert(l1 + l2 =~= l2);
        assert(Seq::<Text>::empty() + sp_selected_texts(a, l2) =~= sp_selected_texts(a, l2));
    } else {
        lemma_selected_texts_append(a, l1.drop_first(), l2);
        assert((l1 + l2)[0] == l1[0]);
        assert((l1 + l2).drop_first() =~= l1.drop_first() + l2);
        if sp_conds_hold(a, l1[0].conds@) {
            assert(seq![l1[0].text] + (sp_selected_texts(a, l1.drop_first()) + sp_selected_texts(
                a,
                l2,
            )) =~= (seq![l1[0].text] + sp_selected_texts(a, l1.drop_first())) + sp_selected_texts(
                a,
                l2,
            ));
        }
    }
}

/// The stored-value selection denotes exactly the model-level selection.
pub proof fn lemma_selected_texts_view<C: ConditionAnswer>(a: &C, l: Seq<ConditionText>)
    ensures
        sp_selected_texts(a, l).len() == sp_selected(a, view_condition_texts(l)).len(),
        forall|k: int|
            0 <= k < sp_selected_texts(a, l).len() ==> view_text(
                #[trigger] sp_selected_texts(a, l)[k],
            ) == sp_selected(a, view_condition_texts(l))[k],
    decreases l.len(),
{
    let vl = view_condition_texts(l);
    if l.len() == 0 {
        assert(vl =~= Seq::<SpecConditionText>::empty());
    } else {
        lemma_selected_texts_view(a, l.drop_first());
        assert(view_condition_texts(l.drop_first()) =~= vl.drop_first());
        assert(vl[0] == view_condition_text(l[0]));
        assert(vl[0].conds == l[0].conds@);
    }
}

/// The values of the `Some` entries, in order.
pub open spec fn sp_somes<R>(os: Seq<Option<R>>) -> Seq<R>
    decreases os.len(),
{
    if os.len() == 0 {
        Seq::empty()
    } else {
        sp_somes(os.drop_last()) + (match os.last() {
            Some(x) => seq![x],
            None => Seq::empty(),
        })
    }
}

/// Keep the `Some` values of a list, in order.
fn somes_of<R>(opts: Vec<Option<R>>) -> (r: Vec<R>)
    ensures
        r@ == sp_somes(opts@),
{
    let ghost os = opts@;
    let n = opts.len();
    let mut rem = opts;
    let mut out: Vec<R> = Vec::new();
    let mut i: usize = 0;
    proof {
        assert(os.subrange(0, 0) =~= Seq::<Option<R>>::empty());
        assert(out@ =~= sp_somes(os.subrange(0, 0)));
        assert(rem@ =~= os.subrange(0, os.len() as int));
    }
    while rem.len() > 0
        invariant
            n == os.len(),
            i + rem@.len() == os.len(),
            rem@ == os.subrange(i as int, os.len() as int),
            out@ == sp_somes(os.subrange(0, i as int)),
        decreases rem@.len(),
    {
        let o = rem.remove(0);
        proof {
            assert(o == os[i as int]);
            assert(rem@ =~= os.subrange(i as int + 1, os.len() as int));
            assert(os.subrange(0, i as int + 1).drop_last() =~= os.subrange(0, i as int));
            assert(os.subrange(0, i as int + 1).last() == os[i as int]);
        }
        match o {
            Some(v) => {
                out.push(v);
                proof {
                    assert(out@ =~= sp_somes(os.subrange(0, i as int + 1)));
                }
            },
            None => {
                proof {
                    assert(out@ + Seq::<R>::empty() =~= out@);
                    assert(out@ =~= sp_somes(os.subrange(0, i as int + 1)));
                }
            },
        }
        i += 1;
    }
    proof {
        assert(os.subrange(0, os.len() as int) =~= os);
    }
    out
}

impl ConditionTexts {
    /// The stored entries, as the contracts of the handler methods speak of
    /// them.
    pub closed spec fn entries(&self) -> Seq<ConditionText> {
        self.0@
    }

    /// The stored entries denote the model list.
    pub proof fn lemma_entries_view(&self)
        ensures
            view_condition_texts(self.entries()) == self@,
    {
    }

    /// Run `text_handler` over the text of each entry whose conditions hold
    /// under `cond_answer`, in source order, collecting the results.
    pub fn map_texts<F: Fn(&Text) -> R, R, C: ConditionAnswer>(
        &self,
        cond_answer: &C,
        text_handler: F,
    ) -> (r: Vec<R>)
        requires
            forall|k: int|
                0 <= k < self.entries().len() ==> call_requires(
                    text_handler,
                    (&(#[trigger] self.entries()[k]).text,),
                ),
        ensures
            r@.len() == sp_selected_texts(cond_answer, self.entries()).len(),
            forall|k: int|
                #![trigger r@[k]]
                0 <= k < r@.len() ==> call_ensures(
                    text_handler,
                    (&sp_selected_texts(cond_answer, self.entries())[k],),
                    r@[k],
                ),
    {
        let ghost el = self.entries();
        let mut out: Vec<R> = Vec::new();
        let mut i: usize = 0;
        proof {
            assert(el.subrange(0, 0) =~= Seq::<ConditionText>::empty());
        }
        while i < self.0.len()
            invariant
                i <= self.0@.len(),
                el == self.entries(),
                el == self.0@,
                forall|k: int|
                    0 <= k < el.len() ==> call_requires(
                        text_handler,
                        (&(#[trigger] el[k]).text,),
                    ),
                out@.len() == sp_selected_texts(cond_answer, el.subrange(0, i as int)).len(),
                forall|k: int|
                    #![trigger out@[k]]
                    0 <= k < out@.len() ==> call_ensures(
                        text_handler,
                        (&sp_selected_texts(cond_answer, el.subrange(0, i as int))[k],),
                        out@[k],
                    ),
            decreases self.0@.len() - i,
        {
            let ghost pref = sp_selected_texts(cond_answer, el.subrange(0, i as int));
            proof {
                lemma_selected_texts_append(
                    cond_answer,
                    el.subrange(0, i as int),
                    seq![el[i as int]],
                );
                assert(el.subrange(0, i as int) + seq![el[i as int]] =~= el.subrange(
                    0,
                    i as int + 1,
                ));
                reveal_with_fuel(sp_selected_texts, 2);
                assert(seq![el[i as int]].drop_first() =~= Seq::<ConditionText>::empty());
            }
            let entry = &self.0[i];
            if conds_hold(cond_answer, &entry.conds) {
                proof {
                    assert(sp_selected_texts(cond_answer, seq![el[i as int]]) =~= seq![
                        el[i as int].text,
                    ]);
                }
                let v = text_handler(&entry.text);
                out.push(v);
                proof {
                    let sel2 = sp_selected_texts(cond_answer, el.subrange(0, i as int + 1));
                    assert(sel2 =~= pref + seq![el[i as int].text]);
                    assert forall|k: int| #![trigger out@[k]] 0 <= k < out@.len() implies
                        call_ensures(text_handler, (&sel2[k],), out@[k]) by {
                        if k < out@.len() - 1 {
                            assert(sel2[k] == pref[k]);
                        } else {
                            assert(sel2[k] == el[i as int].text);
                        }
                    }
                }
            } else {
                proof {
                    assert(sp_selected_texts(cond_answer, seq![el[i as int]])
                        =~= Seq::<Text>::empty());
                    assert(sp_selected_texts(cond_answer, el.subrange(0, i as int + 1)) =~= pref);
                }
            }
            i += 1;
        }
        proof {
            assert(el.subrange(0, self.0@.len() as int) =~= el);
        }
        out
    }

    /// As [`Self::map_texts`], for a handler that mutates its own state.
    /// The handler must not borrow mutably from its context.
    pub fn map_texts_mut<F: Fn(&Text) -> R, R, C: ConditionAnswer>(
        &self,
        cond_answer: &C,
        text_handler: F,
    ) -> (r: Vec<R>)
        requires
            forall|k: int|
                0 <= k < self.entries().len() ==> call_requires(
                    text_handler,
                    (&(#[trigger] self.entries()[k]).text,),
                ),
        ensures
            r@.len() == sp_selected_texts(cond_answer, self.entries()).len(),
            forall|k: int|
                #![trigger r@[k]]
                0 <= k < r@.len() ==> call_ensures(
                    text_handler,
                    (&sp_selected_texts(cond_answer, self.entries())[k],),
                    r@[k],
                ),
    {
        self.map_texts(cond_answer, text_handler)
    }

    /// Run `text_handler` over the text of each entry whose conditions hold,
    /// in source order, keeping the `Some` results.
    pub fn filter_map_texts<F: Fn(&Text) -> Option<R>, R, C: ConditionAnswer>(
        &self,
        cond_answer: &C,
        text_handler: F,
    ) -> (r: Vec<R>)
        requires
            forall|k: int|
                0 <= k < self.entries().len() ==> call_requires(
                    text_handler,
                    (&(#[trigger] self.entries()[k]).text,),
                ),
        ensures
            exists|os: Seq<Option<R>>|
                {
                    &&& os.len() == sp_selected_texts(cond_answer, self.entries()).len()
                    &&& forall|k: int|
                        #![trigger os[k]]
                        0 <= k < os.len() ==> call_ensures(
                            text_handler,
                            (&sp_selected_texts(cond_answer, self.entries())[k],),
                            os[k],
                        )
                    &&& r@ == sp_somes(os)
                },
    {
        let opts: Vec<Option<R>> = self.map_texts(cond_answer, text_handler);
        let ghost os = opts@;
        let r = somes_of(opts);
        proof {
            assert(os.len() == sp_selected_texts(cond_answer, self.entries()).len() && (forall|
                k: int,
            |
                #![trigger os[k]]
                0 <= k < os.len() ==> call_ensures(
                    text_handler,
                    (&sp_selected_texts(cond_answer, self.entries())[k],),
                    os[k],
                )) && r@ == sp_somes(os));
        }
        r
    }

    /// As [`Self::filter_map_texts`], for a handler that mutates its own
    /// state. The handler must not borrow mutably from its context.
    pub fn filter_map_texts_mut<F: Fn(&Text) -> Option<R>, R, C: ConditionAnswer>(
        &self,
        cond_answer: &C,
        text_handler: F,
    ) -> (r: Vec<R>)
        requires
            forall|k: int|
                0 <= k < self.entries().len() ==> call_requires(
                    text_handler,
                    (&(#[trigger] self.entries()[k]).text,),
                ),
        ensures
            exists|os: Seq<Option<R>>|
                {
                    &&& os.len() == sp_selected_texts(cond_answer, self.entries()).len()
                    &&& forall|k: int|
                        #![trigger os[k]]
                        0 <= k < os.len() ==> call_ensures(
                            text_handler,
                            (&sp_selected_texts(cond_answer, self.entries())[k],),
                            os[k],
                        )
                    &&& r@ == sp_somes(os)
                },
    {
        self.filter_map_texts(cond_answer, text_handler)
    }

    /// Run a by-value handler over the text of each entry whose conditions
    /// hold, consuming the list, collecting the results in source order.
    pub fn into_map_texts<F: Fn(Text) -> R, R, C: ConditionAnswer>(
        self,
        cond_answer: &C,
        text_handler: F,
    ) -> (r: Vec<R>)
        requires
            forall|k: int|
                0 <= k < self.entries().len() ==> call_requires(
                    text_handler,
                    ((#[trigger] self.entries()[k]).text,),
                ),
        ensures
            r@.len() == sp_selected_texts(cond_answer, self.entries()).len(),
            forall|k: int|
                #![trigger r@[k]]
                0 <= k < r@.len() ==> call_ensures(
                    text_handler,
                    (sp_selected_texts(cond_answer, self.entries())[k],),
                    r@[k],
                ),
    {
        let ghost el = self.entries();
        let n = self.0.len();
        let mut rem = self.0;
        let mut out: Vec<R> = Vec::new();
        let mut i: usize = 0;
        proof {
            assert(el.subrange(0, 0) =~= Seq::<ConditionText>::empty());
            assert(rem@ =~= el.subrange(0, el.len() as int));
        }
        while rem.len() > 0
            invariant
                n == el.len(),
                i + rem@.len() == el.len(),
                rem@ == el.subrange(i as int, el.len() as int),
                forall|k: int|
                    0 <= k < el.len() ==> call_requires(
                        text_handler,
                        ((#[trigger] el[k]).text,),
                    ),
                out@.len() == sp_selected_texts(cond_answer, el.subrange(0, i as int)).len(),
                forall|k: int|
                    #![trigger out@[k]]
                    0 <= k < out@.len() ==> call_ensures(
                        text_handler,
                        (sp_selected_texts(cond_answer, el.subrange(0, i as int))[k],),
                        out@[k],
                    ),
            decreases rem@.len(),
        {
            let ghost pref = sp_selected_texts(cond_answer, el.subrange(0, i as int));
            let ct = rem.remove(0);
            proof {
                assert(ct == el[i as int]);
                assert(rem@ =~= el.subrange(i as int + 1, el.len() as int));
                lemma_selected_texts_append(
                    cond_answer,
                    el.subrange(0, i as int),
                    seq![el[i as int]],
                );
                assert(el.subrange(0, i as int) + seq![el[i as int]] =~= el.subrange(
                    0,
                    i as int + 1,
                ));
                reveal_with_fuel(sp_selected_texts, 2);
                assert(seq![el[i as int]].drop_first() =~= Seq::<ConditionText>::empty());
            }
            if conds_hold(cond_answer, &ct.conds) {
                proof {
                    assert(sp_selected_texts(cond_answer, seq![el[i as int]]) =~= seq![
                        el[i as int].text,
                    ]);
                }
                let v = text_handler(ct.text);
                out.push(v);
                proof {
                    let sel2 = sp_selected_texts(cond_answer, el.subrange(0, i as int + 1));
                    assert(sel2 =~= pref + seq![el[i as int].text]);
                    assert forall|k: int| #![trigger out@[k]] 0 <= k < out@.len() implies
                        call_ensures(text_handler, (sel2[k],), out@[k]) by {
                        if k < out@.len() - 1 {
                            assert(sel2[k] == pref[k]);
                        } else {
                            assert(sel2[k] == el[i as int].text);
                        }
                    }
                }
            } else {
                proof {
                    assert(sp_selected_texts(cond_answer, seq![el[i as int]])
                        =~= Seq::<Text>::empty());
                    assert(sp_selected_texts(cond_answer, el.subrange(0, i as int + 1)) =~= pref);
                }
            }
            i += 1;
        }
        proof {
            assert(el.subrange(0, el.len() as int) =~= el);
        }
        out
    }

    /// As [`Self::into_map_texts`], for a handler that mutates its own
    /// state. The handler must not borrow mutably from its context.
    pub fn into_map_texts_mut<F: Fn(Text) -> R, R, C: ConditionAnswer>(
        self,
        cond_answer: &C,
        text_handler: F,
    ) -> (r: Vec<R>)
        requires
            forall|k: int|
                0 <= k < self.entries().len() ==> call_requires(
                    text_handler,
                    ((#[trigger] self.entries()[k]).text,),
                ),
        ensures
            r@.len() == sp_selected_texts(cond_answer, self.entries()).len(),
            forall|k: int|
                #![trigger r@[k]]
                0 <= k < r@.len() ==> call_ensures(
                    text_handler,
                    (sp_selected_texts(cond_answer, self.entries())[k],),
                    r@[k],
                ),
    {
        self.into_map_texts(cond_answer, text_handler)
    }

    /// Run a by-value handler over each selected text, consuming the list
    /// and keeping the `Some` results in source order.
    pub fn into_filter_map_texts<F: Fn(Text) -> Option<R>, R, C: ConditionAnswer>(
        self,
        cond_answer: &C,
        text_handler: F,
    ) -> (r: Vec<R>)
        requires
            forall|k: int|
                0 <= k < self.entries().len() ==> call_requires(
                    text_handler,
                    ((#[trigger] self.entries()[k]).text,),
                ),
        ensures
            exists|os: Seq<Option<R>>|
                {
                    &&& os.len() == sp_selected_texts(cond_answer, self.entries()).len()
                    &&& forall|k: int|
                        #![trigger os[k]]
                        0 <= k < os.len() ==> call_ensures(
                            text_handler,
                            (sp_selected_texts(cond_answer, self.entries())[k],),
                            os[k],
                        )
                    &&& r@ == sp_somes(os)
                },
    {
        let ghost el = self.entries();
        let ghost sel = sp_selected_texts(cond_answer, el);
        let opts: Vec<Option<R>> = self.into_map_texts(cond_answer, text_handler);
        let ghost os = opts@;
        let r = somes_of(opts);
        proof {
            assert(os.len() == sel.len() && (forall|k: int|
                #![trigger os[k]]
                0 <= k < os.len() ==> call_ensures(text_handler, (sel[k],), os[k])) && r@
                == sp_somes(os));
        }
        r
    }

    /// As [`Self::into_filter_map_texts`], for a handler that mutates its
    /// own state. The handler must not borrow mutably from its context.
    pub fn into_filter_map_texts_mut<F: Fn(Text) -> Option<R>, R, C: ConditionAnswer>(
        self,
        cond_answer: &C,
        text_handler: F,
    ) -> (r: Vec<R>)
        requires
            forall|k: int|
                0 <= k < self.entries().len() ==> call_requires(
                    text_handler,
                    ((#[trigger] self.entries()[k]).text,),
                ),
        ensures
            exists|os: Seq<Option<R>>|
                {
                    &&& os.len() == sp_selected_texts(cond_answer, self.entries()).len()
                    &&& forall|k: int|
                        #![trigger os[k]]
                        0 <= k < os.len() ==> call_ensures(
                            text_handler,
                            (sp_selected_texts(cond_answer, self.entries())[k],),
                            os[k],
                        )
                    &&& r@ == sp_somes(os)
                },
    {
        self.into_filter_map_texts(cond_answer, text_handler)
    }

    /// Run `text_handler` over the text of each selected entry, in source
    /// order, for its effect alone.
    pub fn for_each_texts<F: Fn(&Text), C: ConditionAnswer>(&self, cond_answer: &C, text_handler: F)
        requires
            forall|k: int|
                0 <= k < self.entries().len() ==> call_requires(
                    text_handler,
                    (&(#[trigger] self.entries()[k]).text,),
                ),
    {
        let ghost el = self.entries();
        let mut i: usize = 0;
        while i < self.0.len()
            invariant
                i <= self.0@.len(),
                el == self.0@,
                forall|k: int|
                    0 <= k < el.len() ==> call_requires(
                        text_handler,
                        (&(#[trigger] el[k]).text,),
                    ),
            decreases self.0@.len() - i,
        {
            let entry = &self.0[i];
            if conds_hold(cond_answer, &entry.conds) {
                text_handler(&entry.text);
            }
            i += 1;
        }
    }

    /// Run a by-value handler over each selected text, consuming the list,
    /// for its effect alone.
    pub fn into_for_each_texts<F: Fn(Text), C: ConditionAnswer>(
        self,
        cond_answer: &C,
        text_handler: F,
    )
        requires
            forall|k: int|
                0 <= k < self.entries().len() ==> call_requires(
                    text_handler,
                    ((#[trigger] self.entries()[k]).text,),
                ),
    {
        let ghost el = self.entries();
        let n = self.0.len();
        let mut rem = self.0;
        let mut i: usize = 0;
        while rem.len() > 0
            invariant
                n == el.len(),
                i + rem@.len() == el.len(),
                rem@ == el.subrange(i as int, el.len() as int),
                forall|k: int|
                    0 <= k < el.len() ==> call_requires(
                        text_handler,
                        ((#[trigger] el[k]).text,),
                    ),
            decreases rem@.len(),
        {
            let ct = rem.remove(0);
            proof {
                assert(ct == el[i as int]);
                assert(rem@ =~= el.subrange(i as int + 1, el.len() as int));
            }
            if conds_hold(cond_answer, &ct.conds) {
                text_handler(ct.text);
            }
            i += 1;
        }
    }
}

} // verus!
