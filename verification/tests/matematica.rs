use fundamentos::matematica::analisar_numero;
use fundamentos::matematica::eh_primo;
use fundamentos::matematica::fatorial;
use fundamentos::matematica::fatorial_iterativo;
use fundamentos::matematica::fibonacci_com_tempo;
use fundamentos::matematica::fibonacci_iterativo;
use fundamentos::matematica::fibonacci_loop;
use fundamentos::matematica::fibonacci_recursivo;
use fundamentos::matematica::mdc;
use fundamentos::matematica::mdc_iterativo;
use fundamentos::matematica::mdc_mmc;
use fundamentos::matematica::mmc;
use fundamentos::matematica::primos_ate;

#[test]
fn test_fatorial() {
    assert_eq!(fatorial(0), 1);
    assert_eq!(fatorial(1), 1);
    assert_eq!(fatorial(5), 120);
    assert_eq!(fatorial(10), 3628800);
}

#[test]
fn test_fatorial_iterativo() {
    assert_eq!(fatorial_iterativo(0), 1);
    assert_eq!(fatorial_iterativo(5), 120);
    assert_eq!(fatorial_iterativo(10), 3628800);
}

#[test]
fn test_fibonacci() {
    assert_eq!(fibonacci_iterativo(0), 0);
    assert_eq!(fibonacci_iterativo(1), 1);
    assert_eq!(fibonacci_iterativo(10), 55);
    assert_eq!(fibonacci_iterativo(20), 6765);
}

#[test]
fn test_eh_primo() {
    assert_eq!(eh_primo(2), true);
    assert_eq!(eh_primo(3), true);
    assert_eq!(eh_primo(4), false);
    assert_eq!(eh_primo(17), true);
    assert_eq!(eh_primo(97), true);
    assert_eq!(eh_primo(100), false);
}

#[test]
fn test_mdc() {
    assert_eq!(mdc(12, 18), 6);
    assert_eq!(mdc(24, 36), 12);
    assert_eq!(mdc(7, 13), 1);
}

#[test]
fn test_mmc() {
    assert_eq!(mmc(12, 18), 36);
    assert_eq!(mmc(4, 6), 12);
    assert_eq!(mmc(7, 13), 91);
}

#[test]
fn test_primos_ate() {
    let primos = primos_ate(20);
    assert_eq!(primos, vec![2, 3, 5, 7, 11, 13, 17, 19]);
}

#[test]
fn fibonacci_recursivo_e_iterativo_coincidem() {
    for n in 0..20u32 {
        assert_eq!(fibonacci_recursivo(n), fibonacci_iterativo(n));
    }
}

#[test]
fn fibonacci_loop_gera_os_primeiros_termos() {
    assert_eq!(fibonacci_loop(0), Vec::<u64>::new());
    assert_eq!(fibonacci_loop(1), vec![0]);
    assert_eq!(fibonacci_loop(2), vec![0, 1]);
    assert_eq!(fibonacci_loop(8), vec![0, 1, 1, 2, 3, 5, 8, 13]);
}

#[test]
fn fibonacci_com_tempo_devolve_o_valor_certo() {
    let (valor_recursivo, _millis) = fibonacci_com_tempo(10, true);
    assert_eq!(valor_recursivo, 55);
    let (valor_iterativo, _millis) = fibonacci_com_tempo(20, false);
    assert_eq!(valor_iterativo, 6765);
}

#[test]
fn mdc_iterativo_coincide_com_o_recursivo() {
    assert_eq!(mdc_iterativo(12, 18), 6);
    assert_eq!(mdc_iterativo(0, 5), 5);
    assert_eq!(mdc_iterativo(5, 0), 5);
    assert_eq!(mdc_iterativo(24, 36), mdc(24, 36));
}

#[test]
fn mdc_mmc_devolve_os_dois_de_uma_vez() {
    assert_eq!(mdc_mmc(12, 18), (6, 36));
    assert_eq!(mdc_mmc(15, 25), (5, 75));
    assert_eq!(mdc_mmc(7, 13), (1, 91));
}

#[test]
fn analisar_numero_separa_primos_de_compostos() {
    let (primo, divisores) = analisar_numero(17);
    assert!(primo);
    assert!(divisores.is_empty());
    let (primo, divisores) = analisar_numero(12);
    assert!(!primo);
    assert_eq!(divisores, vec![2, 3, 4, 6, 12]);
    let (primo, divisores) = analisar_numero(0);
    assert!(!primo);
    assert!(divisores.is_empty());
}
