//! A nondeterministic finite automaton over characters, with transitions
//! that read nothing: the sets of states that are reached by reading a
//! character, and by reading nothing.

use vstd::prelude::*;
use vstd::string::*;
use crate::token::{TokenKind, TokenType, TokenTypeView};

verus! {

/// A state, known by its number.
#[derive(Debug, Clone, Copy, PartialEq, Eq, Hash, Structural)]
pub struct Estado(pub usize);

/// A transition to `destino` on reading `simbolo`, or on reading nothing.
#[derive(Debug, Clone, Copy)]
pub struct TransicaoAFN {
    pub destino: Estado,
    pub simbolo: Option<char>,
}

/// A transition with the state it leaves from.
pub struct Aresta {
    pub origem: usize,
    pub destino: usize,
    pub simbolo: Option<char>,
}

/// The automaton. Its sets are kept as lists in which nothing occurs
/// twice.
#[derive(Debug)]
pub struct AFN {
    estados: Vec<Estado>,
    estado_inicial: Estado,
    finais: Vec<Estado>,
    tokens_finais: Vec<TokenType>,
    origens: Vec<Estado>,
    transicoes: Vec<TransicaoAFN>,
    alfabeto: Vec<char>,
}

/// The numbers of the states of a list.
pub open spec fn members(v: Seq<Estado>) -> Set<usize> {
    Set::new(|s: usize| exists|i: int| 0 <= i < v.len() && v[i].0 == s)
}

/// No state occurs twice in the list.
pub open spec fn distinct(v: Seq<Estado>) -> bool {
    forall|i: int, j: int| 0 <= i < j < v.len() ==> v[i].0 != v[j].0
}

/// Whether `s` is reached from a state of `start` by exactly `n`
/// transitions that read nothing.
pub open spec fn eps_reach(edges: Seq<Aresta>, start: Set<usize>, s: usize, n: nat) -> bool
    decreases n,
{
    if n == 0 {
        start.contains(s)
    } else {
        exists|j: int|
            0 <= j < edges.len() && (#[trigger] edges[j]).simbolo is None && edges[j].destino == s
                && eps_reach(edges, start, edges[j].origem, (n - 1) as nat)
    }
}

/// Whether `s` is reached from a state of `start` by transitions that
/// read nothing.
pub open spec fn in_closure(edges: Seq<Aresta>, start: Set<usize>, s: usize) -> bool {
    exists|n: nat| eps_reach(edges, start, s, n)
}

/// Whether `d` is reached from a state of `from` by one of the first `n`
/// transitions, reading `c`.
pub open spec fn moved(edges: Seq<Aresta>, from: Set<usize>, c: char, n: int, d: usize) -> bool {
    exists|j: int|
        0 <= j < n && j < edges.len() && from.contains((#[trigger] edges[j]).origem)
            && edges[j].simbolo == Some(c) && edges[j].destino == d
}

/// The set holds, with each of its states, the states that transitions
/// reading nothing lead to from it.
pub open spec fn closed(edges: Seq<Aresta>, set: Set<usize>) -> bool {
    forall|j: int|
        0 <= j < edges.len() && (#[trigger] edges[j]).simbolo is None && set.contains(
            edges[j].origem,
        ) ==> set.contains(edges[j].destino)
}

/// The number of transitions not yet followed.
pub open spec fn pending(used: Seq<bool>) -> nat
    decreases used.len(),
{
    if used.len() == 0 {
        0
    } else {
        pending(used.drop_last()) + if used.last() {
            0nat
        } else {
            1nat
        }
    }
}

proof fn lemma_pending_update(used: Seq<bool>, i: int)
    requires
        0 <= i < used.len(),
        !used[i],
    ensures
        pending(used.update(i, true)) + 1 == pending(used),
    decreases used.len(),
{
    let after = used.update(i, true);
    if i == used.len() - 1 {
        assert(after.drop_last() =~= used.drop_last());
    } else {
        lemma_pending_update(used.drop_last(), i);
        assert(after.drop_last() =~= used.drop_last().update(i, true));
    }
}

/// A set that holds the start and is closed holds whatever is reached from
/// the start.
pub proof fn lemma_closed_holds_reached(
    edges: Seq<Aresta>,
    start: Set<usize>,
    set: Set<usize>,
    s: usize,
    n: nat,
)
    requires
        start.subset_of(set),
        closed(edges, set),
        eps_reach(edges, start, s, n),
    ensures
        set.contains(s),
    decreases n,
{
    if n > 0 {
        let j = choose|j: int|
            0 <= j < edges.len() && (#[trigger] edges[j]).simbolo is None && edges[j].destino == s
                && eps_reach(edges, start, edges[j].origem, (n - 1) as nat);
        lemma_closed_holds_reached(edges, start, set, edges[j].origem, (n - 1) as nat);
    }
}

/// Whether the list holds the state.
pub fn contains_estado(v: &Vec<Estado>, e: Estado) -> (r: bool)
    ensures
        r == members(v@).contains(e.0),
{
    let mut i: usize = 0;
    while i < v.len()
        invariant
            i <= v@.len(),
            forall|k: int| 0 <= k < i ==> v@[k].0 != e.0,
        decreases v@.len() - i,
    {
        if v[i].0 == e.0 {
            return true;
        }
        i += 1;
    }
    false
}

impl AFN {
    /// The transitions, each with the state it leaves from, in the order
    /// in which they were added.
    pub closed spec fn edges(&self) -> Seq<Aresta> {
        Seq::new(
            self.transicoes@.len(),
            |i: int|
                Aresta {
                    origem: self.origens@[i].0,
                    destino: self.transicoes@[i].destino.0,
                    simbolo: self.transicoes@[i].simbolo,
                },
        )
    }

    /// The states.
    pub closed spec fn states(&self) -> Set<usize> {
        members(self.estados@)
    }

    /// The state in which the automaton starts.
    pub closed spec fn initial(&self) -> usize {
        self.estado_inicial.0
    }

    /// The accepting states with the token types they stand for, in the
    /// order in which they were set; the last entry of a state counts.
    pub closed spec fn accepting(&self) -> Seq<(usize, TokenTypeView)> {
        Seq::new(self.finais@.len(), |i: int| (self.finais@[i].0, self.tokens_finais@[i]@))
    }

    /// The characters that some transition reads.
    pub closed spec fn alphabet(&self) -> Set<char> {
        self.alfabeto@.to_set()
    }

    /// Each transition has its origin, each accepting state its token.
    pub closed spec fn wf(&self) -> bool {
        &&& self.origens@.len() == self.transicoes@.len()
        &&& self.finais@.len() == self.tokens_finais@.len()
        &&& distinct(self.estados@)
        &&& self.alfabeto@.no_duplicates()
    }

    /// The automaton without states or transitions, which starts in
    /// state 0.
    pub fn new() -> (r: AFN)
        ensures
            r.wf(),
            r.edges() == Seq::<Aresta>::empty(),
            r.states() == Set::<usize>::empty(),
            r.initial() == 0,
            r.accepting() == Seq::<(usize, TokenTypeView)>::empty(),
            r.alphabet() == Set::<char>::empty(),
    {
        let r = AFN {
            estados: Vec::new(),
            estado_inicial: Estado(0),
            finais: Vec::new(),
            tokens_finais: Vec::new(),
            origens: Vec::new(),
            transicoes: Vec::new(),
            alfabeto: Vec::new(),
        };
        assert(r.edges() =~= Seq::<Aresta>::empty());
        assert(r.states() =~= Set::<usize>::empty());
        assert(r.accepting() =~= Seq::<(usize, TokenTypeView)>::empty());
        assert(r.alphabet() =~= Set::<char>::empty());
        r
    }

    /// Makes `estado` the state in which the automaton starts.
    pub fn definir_estado_inicial(&mut self, estado: Estado)
        requires
            old(self).wf(),
        ensures
            final(self).wf(),
            final(self).initial() == estado.0,
            final(self).edges() == old(self).edges(),
            final(self).states() == old(self).states(),
            final(self).accepting() == old(self).accepting(),
            final(self).alphabet() == old(self).alphabet(),
    {
        self.estado_inicial = estado;
        assert(self.edges() =~= old(self).edges());
        assert(self.accepting() =~= old(self).accepting());
    }

    /// Adds a state.
    pub fn adicionar_estado(&mut self, estado: Estado)
        requires
            old(self).wf(),
        ensures
            final(self).wf(),
            final(self).states() == old(self).states().insert(estado.0),
            final(self).edges() == old(self).edges(),
            final(self).initial() == old(self).initial(),
            final(self).accepting() == old(self).accepting(),
            final(self).alphabet() == old(self).alphabet(),
    {
        if !contains_estado(&self.estados, estado) {
            self.estados.push(estado);
            assert forall|s: usize| self.states().contains(s) == old(self).states().insert(
                estado.0,
            ).contains(s) by {
                if old(self).states().contains(s) {
                    let i = choose|i: int| 0 <= i < old(self).estados@.len() && old(self).estados@[i].0 == s;
                    assert(self.estados@[i].0 == s);
                }
                if s == estado.0 {
                    assert(self.estados@[self.estados@.len() - 1].0 == s);
                }
            }
        }
        assert(self.states() =~= old(self).states().insert(estado.0));
        assert(self.edges() =~= old(self).edges());
        assert(self.accepting() =~= old(self).accepting());
    }

    /// Adds a transition from `origem` to `destino`; the character it
    /// reads, if it reads one, joins the alphabet.
    pub fn adicionar_transicao(&mut self, origem: Estado, destino: Estado, simbolo: Option<char>)
        requires
            old(self).wf(),
        ensures
            final(self).wf(),
            final(self).edges() == old(self).edges().push(
                Aresta { origem: origem.0, destino: destino.0, simbolo },
            ),
            final(self).alphabet() == (match simbolo {
                Some(c) => old(self).alphabet().insert(c),
                None => old(self).alphabet(),
            }),
            final(self).states() == old(self).states(),
            final(self).initial() == old(self).initial(),
            final(self).accepting() == old(self).accepting(),
    {
        if let Some(c) = simbolo {
            let mut i: usize = 0;
            let mut found = false;
            while i < self.alfabeto.len()
                invariant
                    i <= self.alfabeto@.len(),
                    *self == *old(self),
                    found == exists|k: int| 0 <= k < i && self.alfabeto@[k] == c,
                decreases self.alfabeto@.len() - i,
            {
                if self.alfabeto[i] == c {
                    found = true;
                }
                i += 1;
            }
            if !found {
                self.alfabeto.push(c);
                assert(self.alfabeto@.to_set() =~= old(self).alfabeto@.to_set().insert(c)) by {
                    assert forall|x: char| self.alfabeto@.contains(x) == (old(
                        self,
                    ).alfabeto@.contains(x) || x == c) by {
                        if old(self).alfabeto@.contains(x) {
                            let k = choose|k: int| 0 <= k < old(self).alfabeto@.len() && old(self).alfabeto@[k] == x;
                            assert(self.alfabeto@[k] == x);
                        }
                        if x == c {
                            assert(self.alfabeto@[self.alfabeto@.len() - 1] == x);
                        }
                    }
                }
            } else {
                assert(self.alfabeto@.to_set() =~= old(self).alfabeto@.to_set().insert(c)) by {
                    assert(old(self).alfabeto@.contains(c));
                }
            }
        }
        self.origens.push(origem);
        self.transicoes.push(TransicaoAFN { destino, simbolo });
        assert(self.edges() =~= old(self).edges().push(
            Aresta { origem: origem.0, destino: destino.0, simbolo },
        ));
        assert(self.accepting() =~= old(self).accepting());
    }

    /// Makes `estado` an accepting state that stands for `token_type`.
    pub fn definir_estado_final(&mut self, estado: Estado, token_type: TokenType)
        requires
            old(self).wf(),
        ensures
            final(self).wf(),
            final(self).accepting() == old(self).accepting().push((estado.0, token_type@)),
            final(self).edges() == old(self).edges(),
            final(self).states() == old(self).states(),
            final(self).initial() == old(self).initial(),
            final(self).alphabet() == old(self).alphabet(),
    {
        self.finais.push(estado);
        self.tokens_finais.push(token_type);
        assert(self.accepting() =~= old(self).accepting().push((estado.0, token_type@)));
        assert(self.edges() =~= old(self).edges());
    }

    /// The state in which the automaton starts.
    pub fn estado_inicial(&self) -> (r: Estado)
        ensures
            r.0 == self.initial(),
    {
        self.estado_inicial
    }

    /// Whether `estado` is a state of the automaton.
    pub fn contem_estado(&self, estado: Estado) -> (r: bool)
        ensures
            r == self.states().contains(estado.0),
    {
        contains_estado(&self.estados, estado)
    }

    /// The token type that `estado` stands for, if it is an accepting
    /// state: the one it was last given.
    pub fn token_final(&self, estado: Estado) -> (r: Option<TokenType>)
        requires
            self.wf(),
        ensures
            match r {
                Some(t) => exists|i: int|
                    0 <= i < self.accepting().len() && (#[trigger] self.accepting()[i]) == (
                        estado.0,
                        t@,
                    ) && forall|j: int|
                        i < j < self.accepting().len() ==> (#[trigger] self.accepting()[j]).0
                            != estado.0,
                None => forall|j: int|
                    0 <= j < self.accepting().len() ==> (#[trigger] self.accepting()[j]).0
                        != estado.0,
            },
    {
        let mut i: usize = self.finais.len();
        while i > 0
            invariant
                self.wf(),
                i <= self.finais@.len(),
                forall|j: int|
                    i <= j < self.accepting().len() ==> (#[trigger] self.accepting()[j]).0
                        != estado.0,
            decreases i,
        {
            i -= 1;
            if self.finais[i].0 == estado.0 {
                let t = self.tokens_finais[i].duplicate();
                assert(self.accepting()[i as int] == (estado.0, t@));
                return Some(t);
            }
        }
        None
    }

    /// The states reached from the states of `estados` by reading
    /// `simbolo` once.
    pub fn movimento(&self, estados: &Vec<Estado>, simbolo: char) -> (r: Vec<Estado>)
        requires
            self.wf(),
        ensures
            distinct(r@),
            forall|d: usize|
                members(r@).contains(d) <==> moved(
                    self.edges(),
                    members(estados@),
                    simbolo,
                    self.edges().len() as int,
                    d,
                ),
    {
        let ghost edges = self.edges();
        let ghost from = members(estados@);
        let mut resultado: Vec<Estado> = Vec::new();
        let mut i: usize = 0;
        while i < self.transicoes.len()
            invariant
                self.wf(),
                i <= self.transicoes@.len(),
                edges == self.edges(),
                from == members(estados@),
                distinct(resultado@),
                forall|d: usize|
                    members(resultado@).contains(d) <==> moved(edges, from, simbolo, i as int, d),
            decreases self.transicoes@.len() - i,
        {
            let t = self.transicoes[i];
            let reads = match t.simbolo {
                Some(c) => c == simbolo,
                None => false,
            };
            let ghost before = resultado@;
            let take = reads && contains_estado(estados, self.origens[i]) && !contains_estado(
                &resultado,
                t.destino,
            );
            if take {
                resultado.push(t.destino);
            }
            proof {
                let e = edges[i as int];
                let hit = from.contains(e.origem) && e.simbolo == Some(simbolo);
                assert forall|d: usize|
                    members(resultado@).contains(d) <==> moved(
                        edges,
                        from,
                        simbolo,
                        i + 1,
                        d,
                    ) by {
                    if members(resultado@).contains(d) {
                        let k = choose|k: int| 0 <= k < resultado@.len() && resultado@[k].0 == d;
                        if k < before.len() {
                            assert(members(before).contains(d));
                            let j = choose|j: int|
                                0 <= j < i && j < edges.len() && from.contains(
                                    (#[trigger] edges[j]).origem,
                                ) && edges[j].simbolo == Some(simbolo) && edges[j].destino == d;
                            assert(moved(edges, from, simbolo, i + 1, d));
                        } else {
                            assert(e.destino == d && hit);
                            assert(moved(edges, from, simbolo, i + 1, d));
                        }
                    }
                    if moved(edges, from, simbolo, i + 1, d) {
                        let j = choose|j: int|
                            0 <= j < i + 1 && j < edges.len() && from.contains(
                                (#[trigger] edges[j]).origem,
                            ) && edges[j].simbolo == Some(simbolo) && edges[j].destino == d;
                        if j < i {
                            assert(moved(edges, from, simbolo, i as int, d));
                            assert(members(before).contains(d));
                        } else {
                            assert(e.destino == d && hit);
                            if take {
                                assert(resultado@[resultado@.len() - 1].0 == d);
                            } else {
                                assert(members(before).contains(d));
                            }
                        }
                        if members(before).contains(d) {
                            let k = choose|k: int| 0 <= k < before.len() && before[k].0 == d;
                            assert(resultado@[k].0 == d);
                        }
                    }
                }
            }
            i += 1;
        }
        resultado
    }

    /// The states reached from the states of `estados` by transitions that
    /// read nothing: the least set that holds `estados` and is closed
    /// under those transitions.
    pub fn fecho_epsilon(&self, estados: &Vec<Estado>) -> (r: Vec<Estado>)
        requires
            self.wf(),
        ensures
            distinct(r@),
            members(estados@).subset_of(members(r@)),
            closed(self.edges(), members(r@)),
            forall|s: usize|
                members(r@).contains(s) <==> in_closure(self.edges(), members(estados@), s),
    {
        let ghost edges = self.edges();
        let ghost start = members(estados@);
        let n = self.transicoes.len();
        let mut fecho: Vec<Estado> = Vec::new();
        let mut k: usize = 0;
        while k < estados.len()
            invariant
                k <= estados@.len(),
                start == members(estados@),
                distinct(fecho@),
                forall|m: int| 0 <= m < k ==> members(fecho@).contains(estados@[m].0),
                forall|m: int| 0 <= m < fecho@.len() ==> start.contains(#[trigger] fecho@[m].0),
            decreases estados@.len() - k,
        {
            let ghost before = fecho@;
            if !contains_estado(&fecho, estados[k]) {
                fecho.push(estados[k]);
            }
            proof {
                assert forall|m: int| 0 <= m < k + 1 implies members(fecho@).contains(
                    estados@[m].0,
                ) by {
                    if m < k {
                        let w = choose|w: int| 0 <= w < before.len() && before[w].0 == estados@[m].0;
                        assert(fecho@[w].0 == estados@[m].0);
                    } else if members(before).contains(estados@[m].0) {
                        let w = choose|w: int| 0 <= w < before.len() && before[w].0 == estados@[m].0;
                        assert(fecho@[w].0 == estados@[m].0);
                    } else {
                        assert(fecho@[fecho@.len() - 1].0 == estados@[m].0);
                    }
                }
            }
            k += 1;
        }
        let mut used: Vec<bool> = Vec::new();
        let mut u: usize = 0;
        while u < n
            invariant
                u <= n,
                used@.len() == u,
                forall|j: int| 0 <= j < u ==> !used@[j],
            decreases n - u,
        {
            used.push(false);
            u += 1;
        }
        proof {
            assert forall|m: int| 0 <= m < fecho@.len() implies in_closure(
                edges,
                start,
                #[trigger] fecho@[m].0,
            ) by {
                assert(eps_reach(edges, start, fecho@[m].0, 0));
            }
            assert(start.subset_of(members(fecho@))) by {
                assert forall|s: usize| start.contains(s) implies members(fecho@).contains(s) by {
                    let w = choose|w: int| 0 <= w < estados@.len() && estados@[w].0 == s;
                    assert(members(fecho@).contains(estados@[w].0));
                }
            }
        }
        let mut changed = true;
        while changed
            invariant
                self.wf(),
                n == self.transicoes@.len(),
                edges == self.edges(),
                used@.len() == n,
                distinct(fecho@),
                start.subset_of(members(fecho@)),
                forall|m: int|
                    0 <= m < fecho@.len() ==> in_closure(edges, start, #[trigger] fecho@[m].0),
                forall|j: int|
                    0 <= j < n && used@[j] ==> members(fecho@).contains(
                        (#[trigger] edges[j]).destino,
                    ),
                !changed ==> closed(edges, members(fecho@)),
            decreases pending(used@) + (if changed {
                1nat
            } else {
                0nat
            }),
        {
            changed = false;
            let ghost p0 = pending(used@);
            let mut i: usize = 0;
            while i < n
                invariant
                    self.wf(),
                    n == self.transicoes@.len(),
                    edges == self.edges(),
                    i <= n,
                    used@.len() == n,
                    distinct(fecho@),
                    start.subset_of(members(fecho@)),
                    forall|m: int|
                        0 <= m < fecho@.len() ==> in_closure(edges, start, #[trigger] fecho@[m].0),
                    forall|j: int|
                        0 <= j < n && used@[j] ==> members(fecho@).contains(
                            (#[trigger] edges[j]).destino,
                        ),
                    changed ==> pending(used@) < p0,
                    !changed ==> pending(used@) == p0,
                    !changed ==> forall|j: int|
                        0 <= j < i && (#[trigger] edges[j]).simbolo is None && members(
                            fecho@,
                        ).contains(edges[j].origem) ==> used@[j],
                decreases n - i,
            {
                let t = self.transicoes[i];
                let o = self.origens[i];
                let ghost before = fecho@;
                let ghost used_before = used@;
                if !used[i] && t.simbolo.is_none() && contains_estado(&fecho, o) {
                    proof {
                        lemma_pending_update(used@, i as int);
                    }
                    used.set(i, true);
                    if !contains_estado(&fecho, t.destino) {
                        fecho.push(t.destino);
                    }
                    changed = true;
                    proof {
                        let e = edges[i as int];
                        assert(e.origem == o.0 && e.destino == t.destino.0 && e.simbolo is None);
                        assert forall|s: usize| members(before).contains(s) implies members(
                            fecho@,
                        ).contains(s) by {
                            let w = choose|w: int| 0 <= w < before.len() && before[w].0 == s;
                            assert(fecho@[w].0 == s);
                        }
                        assert(members(fecho@).contains(e.destino)) by {
                            if !members(before).contains(e.destino) {
                                assert(fecho@[fecho@.len() - 1].0 == e.destino);
                            }
                        }
                        let w = choose|w: int| 0 <= w < before.len() && before[w].0 == o.0;
                        assert(in_closure(edges, start, before[w].0));
                        let steps = choose|steps: nat| eps_reach(edges, start, o.0, steps);
                        assert(eps_reach(edges, start, e.destino, steps + 1));
                        assert(in_closure(edges, start, e.destino));
                        assert forall|m: int| 0 <= m < fecho@.len() implies in_closure(
                            edges,
                            start,
                            #[trigger] fecho@[m].0,
                        ) by {
                            if m < before.len() {
                                assert(fecho@[m] == before[m]);
                            }
                        }
                    }
                }
                i += 1;
            }
        }
        proof {
            assert forall|s: usize| members(fecho@).contains(s) <==> in_closure(
                edges,
                start,
                s,
            ) by {
                if in_closure(edges, start, s) {
                    let steps = choose|steps: nat| eps_reach(edges, start, s, steps);
                    lemma_closed_holds_reached(edges, start, members(fecho@), s, steps);
                }
                if members(fecho@).contains(s) {
                    let w = choose|w: int| 0 <= w < fecho@.len() && fecho@[w].0 == s;
                    assert(in_closure(edges, start, fecho@[w].0));
                }
            }
        }
        fecho
    }
}

/// The numbers below `n`.
pub open spec fn below(n: int) -> Set<usize> {
    Set::new(|s: usize| s < n)
}

/// The automata agree in all but their states.
pub open spec fn same_but_states(a: AFN, b: AFN) -> bool {
    &&& a.edges() == b.edges()
    &&& a.initial() == b.initial()
    &&& a.accepting() == b.accepting()
    &&& a.alphabet() == b.alphabet()
}

/// The accepting states of a part of the automaton, each with the token
/// type it stands for.
pub open spec fn finals_view(v: Seq<(Estado, TokenType)>) -> Seq<(usize, TokenTypeView)> {
    Seq::new(v.len(), |i: int| (v[i].0.0, v[i].1@))
}

/// The keywords, in the order in which their states are numbered.
pub open spec fn keyword_words() -> Seq<Seq<char>> {
    seq![
        "se"@,
        "entao"@,
        "senao"@,
        "fimse"@,
        "enquanto"@,
        "faca"@,
        "fimenquanto"@,
        "para"@,
        "de"@,
        "ate"@,
        "fimpara"@,
        "funcao"@,
        "retorne"@,
        "fimfuncao"@,
        "inteiro"@,
        "decimal"@,
        "texto"@,
        "logico"@,
        "verdadeiro"@,
        "falso"@,
        "escreva"@,
        "leia"@,
        "principal"@,
    ]
}

/// The tags of the keywords, in the same order.
pub open spec fn keyword_kinds() -> Seq<TokenKind> {
    seq![
        TokenKind::Se,
        TokenKind::Entao,
        TokenKind::Senao,
        TokenKind::FimSe,
        TokenKind::Enquanto,
        TokenKind::Faca,
        TokenKind::FimEnquanto,
        TokenKind::Para,
        TokenKind::De,
        TokenKind::Ate,
        TokenKind::FimPara,
        TokenKind::Funcao,
        TokenKind::Retorne,
        TokenKind::FimFuncao,
        TokenKind::Inteiro,
        TokenKind::Decimal,
        TokenKind::Texto,
        TokenKind::Logico,
        TokenKind::Verdadeiro,
        TokenKind::Falso,
        TokenKind::Escreva,
        TokenKind::Leia,
        TokenKind::Principal,
    ]
}

pub open spec fn single_operator_kinds() -> Seq<TokenKind> {
    seq![
        TokenKind::Mais,
        TokenKind::Menos,
        TokenKind::Multiplicacao,
        TokenKind::Divisao,
        TokenKind::Modulo,
        TokenKind::Atribuicao,
        TokenKind::NaoLogico,
        TokenKind::Menor,
        TokenKind::Maior,
    ]
}

pub open spec fn double_operator_kinds() -> Seq<TokenKind> {
    seq![
        TokenKind::Igual,
        TokenKind::Diferente,
        TokenKind::MenorIgual,
        TokenKind::MaiorIgual,
        TokenKind::ELogico,
        TokenKind::OuLogico,
    ]
}

pub open spec fn delimiter_kinds() -> Seq<TokenKind> {
    seq![
        TokenKind::ParenteseEsquerdo,
        TokenKind::ParenteseDireito,
        TokenKind::ChaveEsquerda,
        TokenKind::ChaveDireita,
        TokenKind::ColcheteEsquerdo,
        TokenKind::ColcheteDireito,
        TokenKind::Virgula,
        TokenKind::PontoEVirgula,
        TokenKind::DoisPontos,
        TokenKind::Ponto,
    ]
}

/// The number of characters of the first `n` words.
pub open spec fn total_len(words: Seq<Seq<char>>, n: int) -> int
    decreases n,
{
    if n <= 0 || n > words.len() {
        0
    } else {
        total_len(words, n - 1) + words[n - 1].len()
    }
}

proof fn lemma_total_len_grows(words: Seq<Seq<char>>, i: int, j: int)
    requires
        0 <= i <= j <= words.len(),
    ensures
        0 <= total_len(words, i) <= total_len(words, j),
    decreases j,
{
    if i < j {
        lemma_total_len_grows(words, i, j - 1);
    } else if i > 0 {
        lemma_total_len_grows(words, i - 1, i - 1);
    }
}

/// The keywords have 138 characters in all.
proof fn lemma_keyword_lengths()
    ensures
        keyword_words().len() == 23,
        total_len(keyword_words(), 23) == 138,
        forall|i: int| 0 <= i < 23 ==> (#[trigger] keyword_words()[i]).len() > 0,
{
    reveal_strlit("se");
    reveal_strlit("entao");
    reveal_strlit("senao");
    reveal_strlit("fimse");
    reveal_strlit("enquanto");
    reveal_strlit("faca");
    reveal_strlit("fimenquanto");
    reveal_strlit("para");
    reveal_strlit("de");
    reveal_strlit("ate");
    reveal_strlit("fimpara");
    reveal_strlit("funcao");
    reveal_strlit("retorne");
    reveal_strlit("fimfuncao");
    reveal_strlit("inteiro");
    reveal_strlit("decimal");
    reveal_strlit("texto");
    reveal_strlit("logico");
    reveal_strlit("verdadeiro");
    reveal_strlit("falso");
    reveal_strlit("escreva");
    reveal_strlit("leia");
    reveal_strlit("principal");
    let w = keyword_words();
    assert(total_len(w, 0) == 0);
    assert(total_len(w, 1) == 2);
    assert(total_len(w, 2) == 7);
    assert(total_len(w, 3) == 12);
    assert(total_len(w, 4) == 17);
    assert(total_len(w, 5) == 25);
    assert(total_len(w, 6) == 29);
    assert(total_len(w, 7) == 40);
    assert(total_len(w, 8) == 44);
    assert(total_len(w, 9) == 46);
    assert(total_len(w, 10) == 49);
    assert(total_len(w, 11) == 56);
    assert(total_len(w, 12) == 62);
    assert(total_len(w, 13) == 69);
    assert(total_len(w, 14) == 78);
    assert(total_len(w, 15) == 85);
    assert(total_len(w, 16) == 92);
    assert(total_len(w, 17) == 97);
    assert(total_len(w, 18) == 103);
    assert(total_len(w, 19) == 113);
    assert(total_len(w, 20) == 118);
    assert(total_len(w, 21) == 125);
    assert(total_len(w, 22) == 129);
    assert(total_len(w, 23) == 138);
}

fn palavras_chave() -> (r: (Vec<String>, Vec<TokenKind>))
    ensures
        r.0@.len() == 23,
        r.1@.len() == 23,
        forall|i: int| 0 <= i < 23 ==> (#[trigger] r.0@[i])@ == keyword_words()[i],
        r.1@ == keyword_kinds(),
{
    let mut words: Vec<String> = Vec::new();
    let mut kinds: Vec<TokenKind> = Vec::new();
    words.push(String::from_str("se"));
    kinds.push(TokenKind::Se);
    words.push(String::from_str("entao"));
    kinds.push(TokenKind::Entao);
    words.push(String::from_str("senao"));
    kinds.push(TokenKind::Senao);
    words.push(String::from_str("fimse"));
    kinds.push(TokenKind::FimSe);
    words.push(String::from_str("enquanto"));
    kinds.push(TokenKind::Enquanto);
    words.push(String::from_str("faca"));
    kinds.push(TokenKind::Faca);
    words.push(String::from_str("fimenquanto"));
    kinds.push(TokenKind::FimEnquanto);
    words.push(String::from_str("para"));
    kinds.push(TokenKind::Para);
    words.push(String::from_str("de"));
    kinds.push(TokenKind::De);
    words.push(String::from_str("ate"));
    kinds.push(TokenKind::Ate);
    words.push(String::from_str("fimpara"));
    kinds.push(TokenKind::FimPara);
    words.push(String::from_str("funcao"));
    kinds.push(TokenKind::Funcao);
    words.push(String::from_str("retorne"));
    kinds.push(TokenKind::Retorne);
    words.push(String::from_str("fimfuncao"));
    kinds.push(TokenKind::FimFuncao);
    words.push(String::from_str("inteiro"));
    kinds.push(TokenKind::Inteiro);
    words.push(String::from_str("decimal"));
    kinds.push(TokenKind::Decimal);
    words.push(String::from_str("texto"));
    kinds.push(TokenKind::Texto);
    words.push(String::from_str("logico"));
    kinds.push(TokenKind::Logico);
    words.push(String::from_str("verdadeiro"));
    kinds.push(TokenKind::Verdadeiro);
    words.push(String::from_str("falso"));
    kinds.push(TokenKind::Falso);
    words.push(String::from_str("escreva"));
    kinds.push(TokenKind::Escreva);
    words.push(String::from_str("leia"));
    kinds.push(TokenKind::Leia);
    words.push(String::from_str("principal"));
    kinds.push(TokenKind::Principal);
    assert(kinds@ =~= keyword_kinds());
    (words, kinds)
}

fn operadores_simples() -> (r: Vec<TokenKind>)
    ensures
        r@ == single_operator_kinds(),
{
    let mut v: Vec<TokenKind> = Vec::new();
    v.push(TokenKind::Mais);
    v.push(TokenKind::Menos);
    v.push(TokenKind::Multiplicacao);
    v.push(TokenKind::Divisao);
    v.push(TokenKind::Modulo);
    v.push(TokenKind::Atribuicao);
    v.push(TokenKind::NaoLogico);
    v.push(TokenKind::Menor);
    v.push(TokenKind::Maior);
    assert(v@ =~= single_operator_kinds());
    v
}

fn operadores_compostos() -> (r: Vec<TokenKind>)
    ensures
        r@ == double_operator_kinds(),
{
    let mut v: Vec<TokenKind> = Vec::new();
    v.push(TokenKind::Igual);
    v.push(TokenKind::Diferente);
    v.push(TokenKind::MenorIgual);
    v.push(TokenKind::MaiorIgual);
    v.push(TokenKind::ELogico);
    v.push(TokenKind::OuLogico);
    assert(v@ =~= double_operator_kinds());
    v
}

fn delimitadores() -> (r: Vec<TokenKind>)
    ensures
        r@ == delimiter_kinds(),
{
    let mut v: Vec<TokenKind> = Vec::new();
    v.push(TokenKind::ParenteseEsquerdo);
    v.push(TokenKind::ParenteseDireito);
    v.push(TokenKind::ChaveEsquerda);
    v.push(TokenKind::ChaveDireita);
    v.push(TokenKind::ColcheteEsquerdo);
    v.push(TokenKind::ColcheteDireito);
    v.push(TokenKind::Virgula);
    v.push(TokenKind::PontoEVirgula);
    v.push(TokenKind::DoisPontos);
    v.push(TokenKind::Ponto);
    assert(v@ =~= delimiter_kinds());
    v
}

/// A new state: it gets the next number and joins the automaton.
fn novo_estado(afn: &mut AFN, contador: &mut usize) -> (r: Estado)
    requires
        old(afn).wf(),
        *old(contador) < usize::MAX,
        old(afn).states() == below(*old(contador) as int),
    ensures
        final(afn).wf(),
        r.0 == *old(contador),
        *final(contador) == *old(contador) + 1,
        final(afn).states() == below(*final(contador) as int),
        same_but_states(*final(afn), *old(afn)),
{
    let estado = Estado(*contador);
    *contador += 1;
    afn.adicionar_estado(estado);
    assert(afn.states() =~= below(*contador as int));
    estado
}

/// As many new states as `n`; the last of them is returned.
fn novos_estados(afn: &mut AFN, contador: &mut usize, n: usize) -> (r: Estado)
    requires
        old(afn).wf(),
        n > 0,
        *old(contador) + n <= usize::MAX,
        old(afn).states() == below(*old(contador) as int),
    ensures
        final(afn).wf(),
        r.0 == *old(contador) + n - 1,
        *final(contador) == *old(contador) + n,
        final(afn).states() == below(*final(contador) as int),
        same_but_states(*final(afn), *old(afn)),
{
    let mut last = novo_estado(afn, contador);
    let mut j: usize = 1;
    while j < n
        invariant
            afn.wf(),
            1 <= j <= n,
            *old(contador) + n <= usize::MAX,
            *contador == *old(contador) + j,
            last.0 == *contador - 1,
            afn.states() == below(*contador as int),
            same_but_states(*afn, *old(afn)),
        decreases n - j,
    {
        last = novo_estado(afn, contador);
        j += 1;
    }
    last
}

/// One accepting state for each of `kinds`, numbered in order.
fn estados_finais_de(afn: &mut AFN, contador: &mut usize, kinds: &Vec<TokenKind>, step: usize) -> (r:
    Vec<(Estado, TokenType)>)
    requires
        old(afn).wf(),
        step > 0,
        *old(contador) + kinds@.len() * step <= usize::MAX,
        old(afn).states() == below(*old(contador) as int),
    ensures
        final(afn).wf(),
        *final(contador) == *old(contador) + kinds@.len() * step,
        final(afn).states() == below(*final(contador) as int),
        same_but_states(*final(afn), *old(afn)),
        finals_view(r@) == Seq::new(
            kinds@.len(),
            |i: int|
                (
                    (*old(contador) + (i + 1) * step - 1) as usize,
                    TokenTypeView::plain(kinds@[i]),
                ),
        ),
{
    let mut finais: Vec<(Estado, TokenType)> = Vec::new();
    let mut i: usize = 0;
    while i < kinds.len()
        invariant
            afn.wf(),
            step > 0,
            i <= kinds@.len(),
            *old(contador) + kinds@.len() * step <= usize::MAX,
            *contador == *old(contador) + i * step,
            afn.states() == below(*contador as int),
            same_but_states(*afn, *old(afn)),
            finais@.len() == i,
            forall|k: int|
                0 <= k < i ==> (#[trigger] finais@[k]).0.0 == *old(contador) + (k + 1) * step - 1
                    && finais@[k].1@ == TokenTypeView::plain(kinds@[k]),
        decreases kinds@.len() - i,
    {
        proof {
            assert((i + 1) * step == i * step + step) by (nonlinear_arith);
            assert((i + 1) * step <= kinds@.len() * step) by (nonlinear_arith)
                requires
                    i + 1 <= kinds@.len(),
                    step > 0,
            ;
        }
        let estado = novos_estados(afn, contador, step);
        finais.push((estado, TokenType::plain(kinds[i])));
        i += 1;
    }
    assert(finals_view(finais@) =~= Seq::new(
        kinds@.len(),
        |i: int|
            ((*old(contador) + (i + 1) * step - 1) as usize, TokenTypeView::plain(kinds@[i])),
    ));
    finais
}

impl AFN {
    /// The automaton of the language: a start state, numbered 0, and from
    /// it a transition that reads nothing to the first state of each of
    /// six parts, one for each kind of token. The states of the parts are
    /// numbered on from 1 in the order keywords, identifiers, numbers,
    /// strings, operators, delimiters. The parts have their states and no
    /// transitions yet, and the automaton has no accepting state.
    pub fn construir_afn_symplia() -> (r: AFN)
        ensures
            r.wf(),
            r.initial() == 0,
            r.states() == below(180),
            r.edges() == seq![
                Aresta { origem: 0, destino: 1, simbolo: None },
                Aresta { origem: 0, destino: 140, simbolo: None },
                Aresta { origem: 0, destino: 142, simbolo: None },
                Aresta { origem: 0, destino: 145, simbolo: None },
                Aresta { origem: 0, destino: 147, simbolo: None },
                Aresta { origem: 0, destino: 169, simbolo: None },
            ],
            r.accepting() == Seq::<(usize, TokenTypeView)>::empty(),
            r.alphabet() == Set::<char>::empty(),
    {
        let mut afn = AFN::new();
        let mut contador: usize = 0;
        assert(afn.states() =~= below(0));
        let estado_inicial = novo_estado(&mut afn, &mut contador);
        afn.definir_estado_inicial(estado_inicial);
        proof {
            lemma_keyword_lengths();
        }
        let (_, palavras) = Self::construir_afn_palavras_chave(&mut afn, &mut contador);
        let (_, identificadores) = Self::construir_afn_identificadores(&mut afn, &mut contador);
        let (_, numeros) = Self::construir_afn_numeros(&mut afn, &mut contador);
        let (_, strings) = Self::construir_afn_strings(&mut afn, &mut contador);
        let (_, operadores) = Self::construir_afn_operadores(&mut afn, &mut contador);
        let (_, delimitadores) = Self::construir_afn_delimitadores(&mut afn, &mut contador);
        afn.adicionar_transicao(estado_inicial, palavras, None);
        afn.adicionar_transicao(estado_inicial, identificadores, None);
        afn.adicionar_transicao(estado_inicial, numeros, None);
        afn.adicionar_transicao(estado_inicial, strings, None);
        afn.adicionar_transicao(estado_inicial, operadores, None);
        afn.adicionar_transicao(estado_inicial, delimitadores, None);
        assert(afn.edges() =~= seq![
            Aresta { origem: 0, destino: 1, simbolo: None },
            Aresta { origem: 0, destino: 140, simbolo: None },
            Aresta { origem: 0, destino: 142, simbolo: None },
            Aresta { origem: 0, destino: 145, simbolo: None },
            Aresta { origem: 0, destino: 147, simbolo: None },
            Aresta { origem: 0, destino: 169, simbolo: None },
        ]);
        afn
    }

    /// The states of the keywords: a first state, then one state for each
    /// character of each keyword; the state of a keyword's last character
    /// accepts the keyword.
    #[verifier::loop_isolation(false)]
    pub fn construir_afn_palavras_chave(afn: &mut AFN, contador: &mut usize) -> (r: (
        Vec<(Estado, TokenType)>,
        Estado,
    ))
        requires
            old(afn).wf(),
            *old(contador) + 139 <= usize::MAX,
            old(afn).states() == below(*old(contador) as int),
        ensures
            final(afn).wf(),
            r.1.0 == *old(contador),
            *final(contador) == *old(contador) + 139,
            final(afn).states() == below(*final(contador) as int),
            same_but_states(*final(afn), *old(afn)),
            finals_view(r.0@) == Seq::new(
                23,
                |i: int|
                    (
                        (*old(contador) + total_len(keyword_words(), i + 1)) as usize,
                        TokenTypeView::plain(keyword_kinds()[i]),
                    ),
            ),
    {
        proof {
            lemma_keyword_lengths();
        }
        let ghost c0 = *contador as int;
        let ghost w = keyword_words();
        let mut estados_finais: Vec<(Estado, TokenType)> = Vec::new();
        let estado_inicial = novo_estado(afn, contador);
        let (words, kinds) = palavras_chave();
        let mut i: usize = 0;
        while i < words.len()
            invariant
                afn.wf(),
                i <= 23,
                *contador == c0 + 1 + total_len(w, i as int),
                afn.states() == below(*contador as int),
                same_but_states(*afn, *old(afn)),
                estados_finais@.len() == i,
                forall|k: int|
                    0 <= k < i ==> (#[trigger] estados_finais@[k]).0.0 == c0 + total_len(w, k + 1)
                        && estados_finais@[k].1@ == TokenTypeView::plain(keyword_kinds()[k]),
            decreases 23 - i,
        {
            let n = words[i].as_str().unicode_len();
            proof {
                assert(words@[i as int]@ == w[i as int]);
                lemma_total_len_grows(w, i + 1, 23);
            }
            let ultimo = novos_estados(afn, contador, n);
            estados_finais.push((ultimo, TokenType::plain(kinds[i])));
            i += 1;
        }
        assert(finals_view(estados_finais@) =~= Seq::new(
            23,
            |i: int|
                ((c0 + total_len(keyword_words(), i + 1)) as usize, TokenTypeView::plain(keyword_kinds()[i])),
        ));
        (estados_finais, estado_inicial)
    }

    /// The states of the identifiers: a first state and an accepting one.
    pub fn construir_afn_identificadores(afn: &mut AFN, contador: &mut usize) -> (r: (
        Vec<(Estado, TokenType)>,
        Estado,
    ))
        requires
            old(afn).wf(),
            *old(contador) + 2 <= usize::MAX,
            old(afn).states() == below(*old(contador) as int),
        ensures
            final(afn).wf(),
            r.1.0 == *old(contador),
            *final(contador) == *old(contador) + 2,
            final(afn).states() == below(*final(contador) as int),
            same_but_states(*final(afn), *old(afn)),
            finals_view(r.0@) == seq![
                ((*old(contador) + 1) as usize, TokenTypeView::plain(TokenKind::Identificador)),
            ],
    {
        let mut estados_finais: Vec<(Estado, TokenType)> = Vec::new();
        let estado_inicial = novo_estado(afn, contador);
        let estado_final = novo_estado(afn, contador);
        estados_finais.push((estado_final, TokenType::Identificador(String::new())));
        assert(finals_view(estados_finais@) =~= seq![
            ((*old(contador) + 1) as usize, TokenTypeView::plain(TokenKind::Identificador)),
        ]);
        (estados_finais, estado_inicial)
    }

    /// The states of the numbers: a first state, one that accepts an
    /// integer and one that accepts a decimal.
    pub fn construir_afn_numeros(afn: &mut AFN, contador: &mut usize) -> (r: (
        Vec<(Estado, TokenType)>,
        Estado,
    ))
        requires
            old(afn).wf(),
            *old(contador) + 3 <= usize::MAX,
            old(afn).states() == below(*old(contador) as int),
        ensures
            final(afn).wf(),
            r.1.0 == *old(contador),
            *final(contador) == *old(contador) + 3,
            final(afn).states() == below(*final(contador) as int),
            same_but_states(*final(afn), *old(afn)),
            finals_view(r.0@) == seq![
                ((*old(contador) + 1) as usize, TokenTypeView::plain(TokenKind::InteiroLiteral)),
                ((*old(contador) + 2) as usize, TokenTypeView::plain(TokenKind::DecimalLiteral)),
            ],
    {
        let mut estados_finais: Vec<(Estado, TokenType)> = Vec::new();
        let estado_inicial = novo_estado(afn, contador);
        let estado_inteiro = novo_estado(afn, contador);
        let estado_decimal = novo_estado(afn, contador);
        estados_finais.push((estado_inteiro, TokenType::InteiroLiteral(0)));
        estados_finais.push((estado_decimal, TokenType::DecimalLiteral(String::new())));
        assert(finals_view(estados_finais@) =~= seq![
            ((*old(contador) + 1) as usize, TokenTypeView::plain(TokenKind::InteiroLiteral)),
            ((*old(contador) + 2) as usize, TokenTypeView::plain(TokenKind::DecimalLiteral)),
        ]);
        (estados_finais, estado_inicial)
    }

    /// The states of the strings: a first state and an accepting one.
    pub fn construir_afn_strings(afn: &mut AFN, contador: &mut usize) -> (r: (
        Vec<(Estado, TokenType)>,
        Estado,
    ))
        requires
            old(afn).wf(),
            *old(contador) + 2 <= usize::MAX,
            old(afn).states() == below(*old(contador) as int),
        ensures
            final(afn).wf(),
            r.1.0 == *old(contador),
            *final(contador) == *old(contador) + 2,
            final(afn).states() == below(*final(contador) as int),
            same_but_states(*final(afn), *old(afn)),
            finals_view(r.0@) == seq![
                ((*old(contador) + 1) as usize, TokenTypeView::plain(TokenKind::StringLiteral)),
            ],
    {
        let mut estados_finais: Vec<(Estado, TokenType)> = Vec::new();
        let estado_inicial = novo_estado(afn, contador);
        let estado_final = novo_estado(afn, contador);
        estados_finais.push((estado_final, TokenType::StringLiteral(String::new())));
        assert(finals_view(estados_finais@) =~= seq![
            ((*old(contador) + 1) as usize, TokenTypeView::plain(TokenKind::StringLiteral)),
        ]);
        (estados_finais, estado_inicial)
    }

    /// The states of the operators: a first state, an accepting state for
    /// each operator of one character, and two states for each operator of
    /// two characters, of which the second accepts.
    pub fn construir_afn_operadores(afn: &mut AFN, contador: &mut usize) -> (r: (
        Vec<(Estado, TokenType)>,
        Estado,
    ))
        requires
            old(afn).wf(),
            *old(contador) + 22 <= usize::MAX,
            old(afn).states() == below(*old(contador) as int),
        ensures
            final(afn).wf(),
            r.1.0 == *old(contador),
            *final(contador) == *old(contador) + 22,
            final(afn).states() == below(*final(contador) as int),
            same_but_states(*final(afn), *old(afn)),
            finals_view(r.0@) == Seq::new(
                9,
                |i: int|
                    ((*old(contador) + 1 + i) as usize, TokenTypeView::plain(single_operator_kinds()[i])),
            ) + Seq::new(
                6,
                |i: int|
                    (
                        (*old(contador) + 11 + 2 * i) as usize,
                        TokenTypeView::plain(double_operator_kinds()[i]),
                    ),
            ),
    {
        let estado_inicial = novo_estado(afn, contador);
        let simples = operadores_simples();
        let mut estados_finais = estados_finais_de(afn, contador, &simples, 1);
        let ghost primeiros = estados_finais@;
        let compostos = operadores_compostos();
        let mut segundos = estados_finais_de(afn, contador, &compostos, 2);
        let ghost ultimos = segundos@;
        estados_finais.append(&mut segundos);
        assert(estados_finais@ =~= primeiros + ultimos);
        assert(finals_view(estados_finais@) =~= finals_view(primeiros) + finals_view(ultimos));
        assert(finals_view(primeiros) =~= Seq::new(
            9,
            |i: int|
                ((*old(contador) + 1 + i) as usize, TokenTypeView::plain(single_operator_kinds()[i])),
        ));
        assert(finals_view(ultimos) =~= Seq::new(
            6,
            |i: int|
                (
                    (*old(contador) + 11 + 2 * i) as usize,
                    TokenTypeView::plain(double_operator_kinds()[i]),
                ),
        ));
        (estados_finais, estado_inicial)
    }

    /// The states of the delimiters: a first state, and an accepting state
    /// for each delimiter.
    pub fn construir_afn_delimitadores(afn: &mut AFN, contador: &mut usize) -> (r: (
        Vec<(Estado, TokenType)>,
        Estado,
    ))
        requires
            old(afn).wf(),
            *old(contador) + 11 <= usize::MAX,
            old(afn).states() == below(*old(contador) as int),
        ensures
            final(afn).wf(),
            r.1.0 == *old(contador),
            *final(contador) == *old(contador) + 11,
            final(afn).states() == below(*final(contador) as int),
            same_but_states(*final(afn), *old(afn)),
            finals_view(r.0@) == Seq::new(
                10,
                |i: int|
                    ((*old(contador) + 1 + i) as usize, TokenTypeView::plain(delimiter_kinds()[i])),
            ),
    {
        let estado_inicial = novo_estado(afn, contador);
        let kinds = delimitadores();
        let estados_finais = estados_finais_de(afn, contador, &kinds, 1);
        assert(finals_view(estados_finais@) =~= Seq::new(
            10,
            |i: int|
                ((*old(contador) + 1 + i) as usize, TokenTypeView::plain(delimiter_kinds()[i])),
        ));
        (estados_finais, estado_inicial)
    }
}

} // verus!
