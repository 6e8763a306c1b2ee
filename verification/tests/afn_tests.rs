use compiler::afn::{contains_estado, Estado, AFN};
use compiler::token::TokenType;

fn sorted(mut v: Vec<Estado>) -> Vec<usize> {
    v.sort_by_key(|e| e.0);
    v.into_iter().map(|e| e.0).collect()
}

fn sample() -> AFN {
    // 0 -ε-> 1 -ε-> 2 -a-> 3, 0 -a-> 4, 2 -ε-> 1, 5 -ε-> 6
    let mut afn = AFN::new();
    for i in 0..7 {
        afn.adicionar_estado(Estado(i));
    }
    afn.adicionar_transicao(Estado(0), Estado(1), None);
    afn.adicionar_transicao(Estado(1), Estado(2), None);
    afn.adicionar_transicao(Estado(2), Estado(3), Some('a'));
    afn.adicionar_transicao(Estado(0), Estado(4), Some('a'));
    afn.adicionar_transicao(Estado(2), Estado(1), None);
    afn.adicionar_transicao(Estado(5), Estado(6), None);
    afn
}

#[test]
fn new_automaton_is_empty_and_starts_in_state_zero() {
    let mut afn = AFN::new();
    assert_eq!(afn.estado_inicial(), Estado(0));
    assert!(!afn.contem_estado(Estado(0)));
    assert!(afn.fecho_epsilon(&vec![]).is_empty());
    assert_eq!(sorted(afn.fecho_epsilon(&vec![Estado(3)])), vec![3]);
    assert!(afn.movimento(&vec![Estado(0)], 'a').is_empty());
    afn.adicionar_estado(Estado(7));
    afn.adicionar_estado(Estado(7));
    assert!(afn.contem_estado(Estado(7)));
    afn.definir_estado_inicial(Estado(7));
    assert_eq!(afn.estado_inicial(), Estado(7));
}

#[test]
fn closure_follows_chains_and_cycles_of_empty_transitions() {
    let afn = sample();
    assert_eq!(sorted(afn.fecho_epsilon(&vec![Estado(0)])), vec![0, 1, 2]);
    assert_eq!(sorted(afn.fecho_epsilon(&vec![Estado(2)])), vec![1, 2]);
    assert_eq!(sorted(afn.fecho_epsilon(&vec![Estado(3)])), vec![3]);
    assert_eq!(sorted(afn.fecho_epsilon(&vec![Estado(5), Estado(3), Estado(5)])), vec![3, 5, 6]);
}

#[test]
fn closure_finds_what_a_later_pass_reaches() {
    // The transitions are listed against the direction of the chain.
    let mut afn = AFN::new();
    afn.adicionar_transicao(Estado(3), Estado(4), None);
    afn.adicionar_transicao(Estado(2), Estado(3), None);
    afn.adicionar_transicao(Estado(1), Estado(2), None);
    assert_eq!(sorted(afn.fecho_epsilon(&vec![Estado(1)])), vec![1, 2, 3, 4]);
}

#[test]
fn move_reads_one_character() {
    let afn = sample();
    assert_eq!(sorted(afn.movimento(&vec![Estado(0), Estado(1), Estado(2)], 'a')), vec![3, 4]);
    assert_eq!(sorted(afn.movimento(&vec![Estado(0)], 'a')), vec![4]);
    assert!(afn.movimento(&vec![Estado(0)], 'b').is_empty());
    assert!(afn.movimento(&vec![Estado(1)], 'a').is_empty());
}

#[test]
fn move_lists_a_state_once() {
    let mut afn = AFN::new();
    afn.adicionar_transicao(Estado(0), Estado(2), Some('x'));
    afn.adicionar_transicao(Estado(1), Estado(2), Some('x'));
    assert_eq!(sorted(afn.movimento(&vec![Estado(0), Estado(1)], 'x')), vec![2]);
}

#[test]
fn accepting_state_stands_for_its_last_token() {
    let mut afn = sample();
    assert_eq!(afn.token_final(Estado(3)), None);
    afn.definir_estado_final(Estado(3), TokenType::Se);
    afn.definir_estado_final(Estado(4), TokenType::Identificador("".to_string()));
    afn.definir_estado_final(Estado(3), TokenType::Senao);
    assert_eq!(afn.token_final(Estado(3)), Some(TokenType::Senao));
    assert_eq!(afn.token_final(Estado(4)), Some(TokenType::Identificador(String::new())));
    assert_eq!(afn.token_final(Estado(0)), None);
    assert!(contains_estado(&vec![Estado(1), Estado(2)], Estado(2)));
    assert!(!contains_estado(&vec![Estado(1), Estado(2)], Estado(3)));
}

#[test]
fn automaton_of_the_language() {
    let afn = AFN::construir_afn_symplia();
    assert_eq!(afn.estado_inicial(), Estado(0));
    assert!(afn.contem_estado(Estado(0)));
    assert!(afn.contem_estado(Estado(179)));
    assert!(!afn.contem_estado(Estado(180)));
    assert_eq!(
        sorted(afn.fecho_epsilon(&vec![Estado(0)])),
        vec![0, 1, 140, 142, 145, 147, 169]
    );
    assert_eq!(sorted(afn.fecho_epsilon(&vec![Estado(1)])), vec![1]);
    assert!(afn.movimento(&vec![Estado(0), Estado(1)], 's').is_empty());
    assert_eq!(afn.token_final(Estado(2)), None);
}

#[test]
fn parts_of_the_automaton_number_their_states_in_order() {
    let mut afn = AFN::new();
    let mut contador = 0usize;
    let (finais, inicial) = AFN::construir_afn_numeros(&mut afn, &mut contador);
    assert_eq!(inicial, Estado(0));
    assert_eq!(contador, 3);
    assert_eq!(
        finais,
        vec![
            (Estado(1), TokenType::InteiroLiteral(0)),
            (Estado(2), TokenType::DecimalLiteral(String::new())),
        ]
    );
    let (finais, inicial) = AFN::construir_afn_palavras_chave(&mut afn, &mut contador);
    assert_eq!(inicial, Estado(3));
    assert_eq!(contador, 3 + 139);
    assert_eq!(finais.len(), 23);
    assert_eq!(finais[0], (Estado(3 + 2), TokenType::Se));
    assert_eq!(finais[1], (Estado(3 + 7), TokenType::Entao));
    assert_eq!(finais[22], (Estado(3 + 138), TokenType::Principal));
    let (finais, inicial) = AFN::construir_afn_operadores(&mut afn, &mut contador);
    assert_eq!(inicial, Estado(142));
    assert_eq!(contador, 164);
    assert_eq!(finais.len(), 15);
    assert_eq!(finais[0], (Estado(143), TokenType::Mais));
    assert_eq!(finais[8], (Estado(151), TokenType::Maior));
    assert_eq!(finais[9], (Estado(153), TokenType::Igual));
    assert_eq!(finais[14], (Estado(163), TokenType::OuLogico));
    let (finais, inicial) = AFN::construir_afn_delimitadores(&mut afn, &mut contador);
    assert_eq!(inicial, Estado(164));
    assert_eq!(finais[9], (Estado(174), TokenType::Ponto));
    let (finais, _) = AFN::construir_afn_identificadores(&mut afn, &mut contador);
    assert_eq!(finais, vec![(Estado(176), TokenType::Identificador(String::new()))]);
    let (finais, _) = AFN::construir_afn_strings(&mut afn, &mut contador);
    assert_eq!(finais, vec![(Estado(178), TokenType::StringLiteral(String::new()))]);
    assert!(afn.contem_estado(Estado(178)));
    assert!(!afn.contem_estado(Estado(179)));
}
