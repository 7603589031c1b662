//! Matematica inteira: fatorial, sequencia de Fibonacci, primalidade,
//! maximo divisor comum e minimo multiplo comum, cada funcao executavel
//! provada contra a sua definicao matematica.

use vstd::arithmetic::div_mod::lemma_fundamental_div_mod;
use vstd::prelude::*;

verus! {

broadcast use vstd::seq_lib::lemma_seq_contains_after_push;

/// O fatorial de n: o produto de 1 ate n.
pub open spec fn fatorial_de(n: nat) -> nat
    decreases n,
{
    if n == 0 {
        1
    } else {
        n * fatorial_de((n - 1) as nat)
    }
}

/// O fatorial nunca diminui de um numero para o seguinte.
pub proof fn lema_fatorial_cresce(n: nat)
    requires
        n >= 1,
    ensures
        fatorial_de((n - 1) as nat) <= fatorial_de(n),
{
    assert(fatorial_de(n) == n * fatorial_de((n - 1) as nat));
    assert(n * fatorial_de((n - 1) as nat) >= 1 * fatorial_de((n - 1) as nat))
        by (nonlinear_arith)
        requires
            n >= 1,
    ;
}

/// O fatorial e monotonico.
pub proof fn lema_fatorial_monotonico(m: nat, n: nat)
    requires
        m <= n,
    ensures
        fatorial_de(m) <= fatorial_de(n),
    decreases n,
{
    if m < n {
        lema_fatorial_monotonico(m, (n - 1) as nat);
        lema_fatorial_cresce(n);
    }
}

/// Calcula o fatorial por recursao.
pub fn fatorial(n: u64) -> (r: u64)
    requires
        fatorial_de(n as nat) <= u64::MAX,
    ensures
        r == fatorial_de(n as nat),
    decreases n,
{
    if n == 0 || n == 1 {
        1
    } else {
        proof {
            lema_fatorial_cresce(n as nat);
        }
        let anterior = fatorial(n - 1);
        n * anterior
    }
}

/// O fatorial de um numero positivo nao fica abaixo dele.
pub proof fn lema_fatorial_pelo_menos(n: nat)
    ensures
        fatorial_de(n) >= n,
        fatorial_de(n) >= 1,
    decreases n,
{
    if n >= 1 {
        lema_fatorial_pelo_menos((n - 1) as nat);
        assert(fatorial_de(n) == n * fatorial_de((n - 1) as nat));
        assert(n * fatorial_de((n - 1) as nat) >= n * 1) by (nonlinear_arith)
            requires
                fatorial_de((n - 1) as nat) >= 1,
                n >= 1,
        ;
    }
}

/// Calcula o fatorial por um laco.
pub fn fatorial_iterativo(n: u64) -> (r: u64)
    requires
        fatorial_de(n as nat) <= u64::MAX,
    ensures
        r == fatorial_de(n as nat),
{
    if n <= 1 {
        assert(fatorial_de(0) == 1);
        assert(fatorial_de(1) == 1);
        return 1;
    }
    proof {
        lema_fatorial_pelo_menos((n - 1) as nat);
        assert(fatorial_de(n as nat) == n * fatorial_de((n - 1) as nat));
        assert(n < u64::MAX) by (nonlinear_arith)
            requires
                n >= 2,
                fatorial_de(n as nat) == n * fatorial_de((n - 1) as nat),
                fatorial_de((n - 1) as nat) >= n - 1,
                fatorial_de(n as nat) <= u64::MAX,
        ;
    }
    let mut resultado: u64 = 1;
    let mut i: u64 = 2;
    assert(fatorial_de(0) == 1);
    assert(resultado == fatorial_de(1));
    while i <= n
        invariant
            2 <= i <= n + 1,
            n < u64::MAX,
            resultado == fatorial_de((i - 1) as nat),
            fatorial_de(n as nat) <= u64::MAX,
        decreases n + 1 - i,
    {
        proof {
            lema_fatorial_monotonico(i as nat, n as nat);
            assert(fatorial_de(i as nat) == i * fatorial_de((i - 1) as nat));
        }
        resultado = resultado * i;
        i = i + 1;
    }
    resultado
}

/// O n-esimo numero de Fibonacci: 0, 1, 1, 2, 3, 5, ...
pub open spec fn fibonacci_de(n: nat) -> nat
    decreases n,
{
    if n == 0 {
        0
    } else if n == 1 {
        1
    } else {
        fibonacci_de((n - 2) as nat) + fibonacci_de((n - 1) as nat)
    }
}

/// A sequencia de Fibonacci e monotonica.
pub proof fn lema_fibonacci_monotonico(m: nat, n: nat)
    requires
        m <= n,
    ensures
        fibonacci_de(m) <= fibonacci_de(n),
    decreases n,
{
    if m < n && n >= 2 {
        lema_fibonacci_monotonico(m, (n - 1) as nat);
    } else if m < n {
        assert(m == 0 && n == 1);
    }
}

/// Calcula Fibonacci por recursao dupla (lento para n grande).
pub fn fibonacci_recursivo(n: u32) -> (r: u64)
    requires
        fibonacci_de(n as nat) <= u64::MAX,
    ensures
        r == fibonacci_de(n as nat),
    decreases n,
{
    match n {
        0 => 0,
        1 => 1,
        _ => {
            proof {
                lema_fibonacci_monotonico((n - 1) as nat, n as nat);
                lema_fibonacci_monotonico((n - 2) as nat, n as nat);
            }
            fibonacci_recursivo(n - 1) + fibonacci_recursivo(n - 2)
        },
    }
}

/// Calcula Fibonacci por um laco.
pub fn fibonacci_iterativo(n: u32) -> (r: u64)
    requires
        fibonacci_de(n as nat) <= u64::MAX,
    ensures
        r == fibonacci_de(n as nat),
{
    if n == 0 {
        return 0;
    }
    if n == 1 {
        return 1;
    }
    let mut anterior: u64 = 0;
    let mut atual: u64 = 1;
    let mut i: u32 = 1;
    while i < n
        invariant
            1 <= i <= n,
            anterior == fibonacci_de((i - 1) as nat),
            atual == fibonacci_de(i as nat),
            fibonacci_de(n as nat) <= u64::MAX,
        decreases n - i,
    {
        proof {
            lema_fibonacci_monotonico((i + 1) as nat, n as nat);
        }
        let proximo = anterior + atual;
        anterior = atual;
        atual = proximo;
        i = i + 1;
    }
    atual
}

/// Gera os primeiros n termos da sequencia de Fibonacci.
pub fn fibonacci_loop(n: usize) -> (r: Vec<u64>)
    requires
        n > 0 ==> fibonacci_de((n - 1) as nat) <= u64::MAX,
    ensures
        r@.len() == n,
        forall|k: int| 0 <= k < n ==> r@[k] == fibonacci_de(k as nat),
{
    if n == 0 {
        return Vec::new();
    }
    if n == 1 {
        let mut sequencia: Vec<u64> = Vec::new();
        sequencia.push(0);
        return sequencia;
    }
    let mut sequencia: Vec<u64> = Vec::new();
    sequencia.push(0);
    sequencia.push(1);
    let mut contador: usize = 2;
    loop
        invariant
            2 <= contador <= n,
            sequencia@.len() == contador,
            forall|k: int| 0 <= k < contador ==> sequencia@[k] == fibonacci_de(k as nat),
            fibonacci_de((n - 1) as nat) <= u64::MAX,
        ensures
            sequencia@.len() == n,
            forall|k: int| 0 <= k < n ==> sequencia@[k] == fibonacci_de(k as nat),
        decreases n - contador,
    {
        if contador >= n {
            break;
        }
        proof {
            lema_fibonacci_monotonico(contador as nat, (n - 1) as nat);
        }
        let proximo = sequencia[contador - 1] + sequencia[contador - 2];
        sequencia.push(proximo);
        contador = contador + 1;
    }
    sequencia
}

/// Calcula Fibonacci e mede, pelo relogio monotonico, quantos
/// milissegundos o calculo levou; do tempo medido nada se promete.
pub fn fibonacci_com_tempo(n: u32, usar_recursivo: bool) -> (r: (u64, u128))
    requires
        fibonacci_de(n as nat) <= u64::MAX,
    ensures
        r.0 == fibonacci_de(n as nat),
{
    let inicio = crate::tempo::agora();
    let resultado = if usar_recursivo {
        fibonacci_recursivo(n)
    } else {
        fibonacci_iterativo(n)
    };
    let duracao = crate::tempo::em_milissegundos(&crate::tempo::decorrido(&inicio));
    (resultado, duracao)
}

/// Um numero natural e primo quando tem pelo menos dois e nenhum divisor
/// proprio alem de um.
pub open spec fn primo(n: nat) -> bool {
    n >= 2 && forall|d: int| 2 <= d < n ==> #[trigger] (n as int % d) != 0
}

/// Se d divide n e 2 <= d < n, algum divisor e de n satisfaz e * e <= n.
proof fn lema_divisor_pequeno(n: nat, d: int)
    requires
        n >= 2,
        2 <= d < n,
        n as int % d == 0,
    ensures
        exists|e: int|
            2 <= e && e * e <= n && #[trigger] (n as int % e) == 0,
{
    let q = n as int / d;
    lemma_fundamental_div_mod(n as int, d);
    assert(n as int == d * q);
    assert(q >= 2) by (nonlinear_arith)
        requires
            n as int == d * q,
            2 <= d < n,
            n >= 2,
    ;
    if d * d <= n {
        assert(2 <= d && d * d <= n && n as int % d == 0);
    } else {
        assert(q * q <= n) by (nonlinear_arith)
            requires
                n as int == d * q,
                d * d > n,
                q >= 2,
                d >= 2,
        ;
        assert(n as int % q == 0) by {
            lemma_fundamental_div_mod(n as int, q);
            assert(n as int == q * d);
            assert(n as int / q == d && n as int % q == 0) by (nonlinear_arith)
                requires
                    n as int == q * (n as int / q) + n as int % q,
                    0 <= n as int % q < q,
                    n as int == q * d,
                    q >= 2,
            ;
        }
        assert(2 <= q && q * q <= n && n as int % q == 0);
    }
}

/// Se e divide n e e e par, entao n e par.
proof fn lema_divisor_par(n: nat, e: int)
    requires
        n >= 1,
        2 <= e,
        e % 2 == 0,
        n as int % e == 0,
    ensures
        n as int % 2 == 0,
{
    let q = n as int / e;
    lemma_fundamental_div_mod(n as int, e);
    let m = e / 2;
    lemma_fundamental_div_mod(e, 2);
    assert(n as int == 2 * (m * q)) by (nonlinear_arith)
        requires
            n as int == e * q,
            e == 2 * m,
    ;
    lemma_fundamental_div_mod(n as int, 2);
    assert(n as int % 2 == 0) by (nonlinear_arith)
        requires
            n as int == 2 * (n as int / 2) + n as int % 2,
            0 <= n as int % 2 < 2,
            n as int == 2 * (m * q),
    ;
}

/// Verifica a primalidade testando o dois e depois os impares enquanto o
/// quadrado deles nao passa de n.
pub fn eh_primo(n: u64) -> (r: bool)
    ensures
        r == primo(n as nat),
{
    if n < 2 {
        return false;
    }
    if n == 2 {
        return true;
    }
    if n % 2 == 0 {
        assert(!primo(n as nat));
        return false;
    }
    let mut divisor: u64 = 3;
    loop
        invariant
            n >= 3,
            n % 2 != 0,
            divisor >= 3,
            divisor % 2 == 1,
            forall|d: int| 3 <= d < divisor && d % 2 == 1 ==> #[trigger] (n as int % d) != 0,
        ensures
            divisor * divisor > n,
            forall|d: int| 3 <= d < divisor && d % 2 == 1 ==> #[trigger] (n as int % d) != 0,
        decreases n - divisor,
    {
        if !(divisor <= n / divisor) {
            proof {
                lemma_fundamental_div_mod(n as int, divisor as int);
                assert(divisor * divisor > n) by (nonlinear_arith)
                    requires
                        divisor > n / divisor,
                        n as int == (divisor as int) * (n as int / (divisor as int)) + n as int
                            % (divisor as int),
                        0 <= n as int % (divisor as int) < divisor as int,
                        divisor >= 3,
                ;
            }
            break;
        }
        proof {
            lemma_fundamental_div_mod(n as int, divisor as int);
            assert(divisor * divisor <= n) by (nonlinear_arith)
                requires
                    divisor <= n / divisor,
                    n as int == (divisor as int) * (n as int / (divisor as int)) + n as int
                        % (divisor as int),
                    0 <= n as int % (divisor as int) < divisor as int,
                    divisor >= 3,
            ;
        }
        proof {
            assert(divisor + 2 <= n && divisor < n) by (nonlinear_arith)
                requires
                    divisor * divisor <= n,
                    divisor >= 3,
            ;
        }
        if n % divisor == 0 {
            return false;
        }
        divisor = divisor + 2;
    }
    proof {
        assert forall|d: int| 2 <= d < n implies #[trigger] (n as int % d) != 0 by {
            if n as int % d == 0 {
                lema_divisor_pequeno(n as nat, d);
                let e = choose|e: int|
                    2 <= e && e * e <= n && #[trigger] (n as int % e) == 0;
                if e % 2 == 0 {
                    lema_divisor_par(n as nat, e);
                } else {
                    assert(e < divisor) by (nonlinear_arith)
                        requires
                            e * e <= n,
                            divisor * divisor > n,
                            e >= 2,
                            divisor >= 3,
                    ;
                    assert(e >= 3);
                }
            }
        }
    }
    true
}

/// Diz se n e primo e, quando nao e, devolve todos os divisores de n a
/// partir de dois, em ordem crescente.
pub fn analisar_numero(n: u64) -> (r: (bool, Vec<u64>))
    requires
        n < u64::MAX,
    ensures
        r.0 == primo(n as nat),
        r.0 ==> r.1@.len() == 0,
        forall|k: int| 0 <= k < r.1@.len() ==> 2 <= #[trigger] r.1@[k] <= n && n % r.1@[k] == 0,
        !r.0 ==> forall|d: u64| 2 <= d <= n && n % d == 0 ==> r.1@.contains(d),
        forall|k1: int, k2: int| 0 <= k1 < k2 < r.1@.len() ==> r.1@[k1] < r.1@[k2],
{
    let primo_flag = eh_primo(n);
    let mut divisores: Vec<u64> = Vec::new();
    if !primo_flag && n >= 2 {
        let mut i: u64 = 2;
        while i <= n
            invariant
                2 <= i,
                n < u64::MAX,
                i <= n + 1,
                forall|k: int|
                    0 <= k < divisores@.len() ==> 2 <= #[trigger] divisores@[k] <= n && n
                        % divisores@[k] == 0,
                forall|d: u64| 2 <= d < i && n % d == 0 ==> divisores@.contains(d),
                forall|k: int| 0 <= k < divisores@.len() ==> divisores@[k] < i,
                forall|k1: int, k2: int|
                    0 <= k1 < k2 < divisores@.len() ==> divisores@[k1] < divisores@[k2],
            decreases n + 1 - i,
        {
            if n % i == 0 {
                divisores.push(i);
            }
            i = i + 1;
        }
    }
    (primo_flag, divisores)
}

/// O maximo divisor comum, pelo algoritmo de Euclides.
pub open spec fn mdc_de(a: nat, b: nat) -> nat
    decreases b,
{
    if b == 0 {
        a
    } else {
        mdc_de(b, a % b)
    }
}

/// d divide x: x e um multiplo de d.
pub open spec fn divide(d: nat, x: nat) -> bool {
    exists|k: nat| x == #[trigger] (d * k)
}

/// O maximo divisor comum divide os dois argumentos.
pub proof fn lema_mdc_divide(a: nat, b: nat)
    ensures
        divide(mdc_de(a, b), a),
        divide(mdc_de(a, b), b),
    decreases b,
{
    if b == 0 {
        assert(a == a * 1) by (nonlinear_arith);
        assert(0 == a * 0) by (nonlinear_arith);
        assert(divide(a, a));
        assert(divide(a, 0));
    } else {
        lema_mdc_divide(b, a % b);
        let g = mdc_de(b, a % b);
        let k1 = choose|k: nat| b == #[trigger] (g * k);
        let k2 = choose|k: nat| a % b == #[trigger] (g * k);
        lemma_fundamental_div_mod(a as int, b as int);
        assert(a as int == b * (a as int / b as int) + (a as int) % (b as int));
        let q = a as int / b as int;
        assert(q >= 0) by (nonlinear_arith)
            requires
                a as int == b * q + (a as int) % (b as int),
                0 <= (a as int) % (b as int) < b,
                b > 0,
                a >= 0,
        ;
        assert(a == g * (k1 * q + k2)) by (nonlinear_arith)
            requires
                a as int == b * q + (a as int) % (b as int),
                b == g * k1,
                a % b == g * k2,
                (a as int) % (b as int) == (a % b) as int,
        ;
        assert((k1 * q + k2) >= 0) by (nonlinear_arith)
            requires
                k1 >= 0,
                q >= 0,
                k2 >= 0,
        ;
        assert(divide(g, a)) by {
            assert(a == g * ((k1 * q + k2) as nat));
        }
    }
}

/// Todo divisor comum de a e b divide o maximo divisor comum; em
/// particular, nenhum divisor comum passa dele.
pub proof fn lema_mdc_e_o_maior(a: nat, b: nat, d: nat)
    requires
        d > 0,
        divide(d, a),
        divide(d, b),
    ensures
        divide(d, mdc_de(a, b)),
        a > 0 || b > 0 ==> d <= mdc_de(a, b),
    decreases b,
{
    if b == 0 {
        assert(divide(d, mdc_de(a, b)));
    } else {
        let k1 = choose|k: nat| a == #[trigger] (d * k);
        let k2 = choose|k: nat| b == #[trigger] (d * k);
        lemma_fundamental_div_mod(a as int, b as int);
        let q = a as int / b as int;
        assert(q >= 0) by (nonlinear_arith)
            requires
                a as int == b * q + (a as int) % (b as int),
                0 <= (a as int) % (b as int) < b,
                b > 0,
                a >= 0,
        ;
        assert(a % b == d * ((k1 - k2 * q) as nat) && k1 - k2 * q >= 0) by (nonlinear_arith)
            requires
                a as int == b * q + (a as int) % (b as int),
                a == d * k1,
                b == d * k2,
                (a as int) % (b as int) == (a % b) as int,
                d > 0,
                q >= 0,
        ;
        assert(divide(d, a % b));
        lema_mdc_e_o_maior(b, a % b, d);
    }
    if a > 0 || b > 0 {
        lema_mdc_positivo(a, b);
        let g = mdc_de(a, b);
        let k = choose|k: nat| g == #[trigger] (d * k);
        assert(d <= g) by (nonlinear_arith)
            requires
                g == d * k,
                g > 0,
                d > 0,
                k >= 0,
        ;
    }
}

/// Quando a e b nao sao ambos zero, o maximo divisor comum e positivo.
pub proof fn lema_mdc_positivo(a: nat, b: nat)
    requires
        a > 0 || b > 0,
    ensures
        mdc_de(a, b) > 0,
    decreases b,
{
    if b > 0 {
        lema_mdc_positivo(b, a % b);
    }
}

/// Calcula o maximo divisor comum por recursao.
pub fn mdc(a: u64, b: u64) -> (r: u64)
    ensures
        r == mdc_de(a as nat, b as nat),
    decreases b,
{
    if b == 0 {
        a
    } else {
        mdc(b, a % b)
    }
}

/// Calcula o maximo divisor comum por um laco.
pub fn mdc_iterativo(a: u64, b: u64) -> (r: u64)
    ensures
        r == mdc_de(a as nat, b as nat),
{
    let mut x = a;
    let mut y = b;
    while y != 0
        invariant
            mdc_de(x as nat, y as nat) == mdc_de(a as nat, b as nat),
        decreases y,
    {
        let temporario = y;
        y = x % y;
        x = temporario;
    }
    x
}

/// O minimo multiplo comum: o produto dividido pelo maximo divisor comum.
pub open spec fn mmc_de(a: nat, b: nat) -> nat {
    (a * b) / mdc_de(a, b)
}

/// Calcula o minimo multiplo comum.
pub fn mmc(a: u64, b: u64) -> (r: u64)
    requires
        a * b <= u64::MAX,
        a > 0 || b > 0,
    ensures
        r == mmc_de(a as nat, b as nat),
{
    proof {
        lema_mdc_positivo(a as nat, b as nat);
    }
    (a * b) / mdc(a, b)
}

/// Calcula de uma vez o maximo divisor comum e o minimo multiplo comum.
pub fn mdc_mmc(a: u64, b: u64) -> (r: (u64, u64))
    requires
        a * b <= u64::MAX,
        a > 0 || b > 0,
    ensures
        r.0 == mdc_de(a as nat, b as nat),
        r.1 == mmc_de(a as nat, b as nat),
{
    proof {
        lema_mdc_positivo(a as nat, b as nat);
    }
    let divisor_comum = mdc(a, b);
    let multiplo_comum = (a * b) / divisor_comum;
    (divisor_comum, multiplo_comum)
}

/// Junta todos os primos ate n, em ordem crescente.
pub fn primos_ate(n: u64) -> (r: Vec<u64>)
    requires
        n < u64::MAX,
    ensures
        forall|k: int| 0 <= k < r@.len() ==> primo(#[trigger] r@[k] as nat) && r@[k] <= n,
        forall|p: u64| p <= n && primo(p as nat) ==> r@.contains(p),
        forall|k1: int, k2: int| 0 <= k1 < k2 < r@.len() ==> r@[k1] < r@[k2],
{
    let mut primos: Vec<u64> = Vec::new();
    let mut m: u64 = 0;
    while m <= n
        invariant
            n < u64::MAX,
            m <= n + 1,
            forall|k: int| 0 <= k < primos@.len() ==> primo(#[trigger] primos@[k] as nat) && primos@[k] <= n,
            forall|p: u64| p < m && primo(p as nat) ==> primos@.contains(p),
            forall|k: int| 0 <= k < primos@.len() ==> primos@[k] < m,
            forall|k1: int, k2: int| 0 <= k1 < k2 < primos@.len() ==> primos@[k1] < primos@[k2],
        decreases n + 1 - m,
    {
        if eh_primo(m) {
            primos.push(m);
        }
        m = m + 1;
    }
    primos
}

} // verus!
