//! Validacao de dados cadastrais: CPF, email e senha. Cada validador
//! devolve o veredito e a mensagem ou a lista de problemas do original,
//! com contratos que dizem exatamente quando cada resposta sai.

use crate::texto::acrescenta_char;
use crate::texto::char_eh_digito;
use crate::texto::eh_digito;
use crate::texto::valor_digito;
use vstd::prelude::*;
use vstd::string::StringSliceAdditionalSpecFns;

verus! {

/// Os digitos de s, na ordem, sem os demais caracteres.
pub open spec fn somente_digitos(s: Seq<char>) -> Seq<char>
    decreases s.len(),
{
    if s.len() == 0 {
        s
    } else {
        somente_digitos(s.drop_last()) + if eh_digito(s.last()) {
            seq![s.last()]
        } else {
            Seq::empty()
        }
    }
}

/// Todo caractere do resultado de somente_digitos e um digito.
pub proof fn lema_somente_digitos_sao_digitos(s: Seq<char>)
    ensures
        forall|k: int|
            0 <= k < somente_digitos(s).len() ==> eh_digito(#[trigger] somente_digitos(s)[k]),
    decreases s.len(),
{
    if s.len() > 0 {
        lema_somente_digitos_sao_digitos(s.drop_last());
        let todos = somente_digitos(s);
        let antes = somente_digitos(s.drop_last());
        assert forall|k: int| 0 <= k < todos.len() implies eh_digito(todos[k]) by {
            if k < antes.len() {
                assert(todos[k] == antes[k]);
            } else {
                assert(eh_digito(s.last()));
                assert(todos[k] == s.last());
            }
        }
    }
}

/// Remove a formatacao de um CPF, guardando apenas os digitos.
pub fn limpar_cpf(cpf: &str) -> (r: String)
    ensures
        r@ == somente_digitos(cpf@),
{
    let tamanho = cpf.unicode_len();
    let mut resultado = String::new();
    let mut i: usize = 0;
    while i < tamanho
        invariant
            0 <= i <= tamanho,
            tamanho == cpf@.len(),
            resultado@ == somente_digitos(cpf@.subrange(0, i as int)),
        decreases tamanho - i,
    {
        let c = cpf.get_char(i);
        if char_eh_digito(c) {
            acrescenta_char(&mut resultado, c);
        }
        proof {
            let prefixo = cpf@.subrange(0, i as int + 1);
            assert(prefixo.drop_last() =~= cpf@.subrange(0, i as int));
            assert(prefixo.last() == cpf@[i as int]);
            if eh_digito(cpf@[i as int]) {
                assert(resultado@ =~= somente_digitos(prefixo.drop_last()) + seq![prefixo.last()]);
            } else {
                assert(resultado@ =~= somente_digitos(prefixo.drop_last())
                    + Seq::<char>::empty());
            }
        }
        i = i + 1;
    }
    proof {
        assert(cpf@.subrange(0, tamanho as int) =~= cpf@);
    }
    resultado
}

/// Todos os caracteres da sequencia sao iguais ao primeiro.
pub open spec fn todos_iguais(s: Seq<char>) -> bool {
    forall|k: int| 0 <= k < s.len() ==> #[trigger] s[k] == s[0]
}

/// Diz se um CPF ja limpo e uma sequencia de um so caractere repetido.
pub fn cpf_tem_digitos_repetidos(cpf: &str) -> (r: bool)
    requires
        cpf@.len() > 0,
    ensures
        r == todos_iguais(cpf@),
{
    let tamanho = cpf.unicode_len();
    let primeiro = cpf.get_char(0);
    let mut i: usize = 1;
    while i < tamanho
        invariant
            1 <= i <= tamanho,
            tamanho == cpf@.len(),
            primeiro == cpf@[0],
            forall|k: int| 0 <= k < i ==> #[trigger] cpf@[k] == cpf@[0],
        decreases tamanho - i,
    {
        if cpf.get_char(i) != primeiro {
            return false;
        }
        i = i + 1;
    }
    true
}

/// A soma dos produtos termo a termo, ate o fim da sequencia mais curta.
pub open spec fn soma_ponderada(a: Seq<u32>, b: Seq<u32>) -> int
    decreases a.len(),
{
    if a.len() == 0 || b.len() == 0 {
        0
    } else {
        a[0] * b[0] + soma_ponderada(a.drop_first(), b.drop_first())
    }
}

/// A soma ponderada de valores sem sinal nunca e negativa.
pub proof fn lema_soma_ponderada_nao_negativa(a: Seq<u32>, b: Seq<u32>)
    ensures
        soma_ponderada(a, b) >= 0,
    decreases a.len(),
{
    if a.len() > 0 && b.len() > 0 {
        assert(a[0] * b[0] >= 0) by (nonlinear_arith);
        lema_soma_ponderada_nao_negativa(a.drop_first(), b.drop_first());
    }
}

/// Quando cada produto termo a termo fica ate m, a soma ponderada fica ate
/// o comprimento util vezes m.
pub proof fn lema_soma_ponderada_limitada(a: Seq<u32>, b: Seq<u32>, m: int)
    requires
        m >= 0,
        forall|k: int| 0 <= k < a.len() && k < b.len() ==> #[trigger] (a[k] * b[k]) <= m,
    ensures
        soma_ponderada(a, b) <= a.len() * m,
    decreases a.len(),
{
    if a.len() == 0 || b.len() == 0 {
        assert(a.len() * m >= 0) by (nonlinear_arith)
            requires
                m >= 0,
                a.len() >= 0,
        ;
    } else {
        assert(forall|k: int|
            0 <= k < a.drop_first().len() && k < b.drop_first().len()
                ==> #[trigger] (a.drop_first()[k] * b.drop_first()[k]) <= m) by {
            assert(forall|k: int|
                0 <= k < a.drop_first().len() && k < b.drop_first().len()
                    ==> a.drop_first()[k] == a[k + 1] && b.drop_first()[k] == b[k + 1]);
        }
        lema_soma_ponderada_limitada(a.drop_first(), b.drop_first(), m);
        assert(a[0] * b[0] <= m);
        assert((a.len() - 1) * m + m == a.len() * m) by (nonlinear_arith);
    }
}

/// O digito verificador que uma soma ponderada pede.
pub open spec fn digito_de(soma: int) -> int {
    if soma % 11 < 2 {
        0
    } else {
        11 - soma % 11
    }
}

/// Calcula um digito verificador de CPF a partir dos digitos e dos seus
/// multiplicadores.
pub fn calcular_digito_cpf(cpf: &[u32], multiplicadores: &[u32]) -> (r: u32)
    requires
        soma_ponderada(cpf@, multiplicadores@) <= u32::MAX,
    ensures
        r == digito_de(soma_ponderada(cpf@, multiplicadores@)),
{
    let tamanho = if cpf.len() < multiplicadores.len() {
        cpf.len()
    } else {
        multiplicadores.len()
    };
    let mut soma: u32 = 0;
    let mut i: usize = 0;
    proof {
        assert(cpf@.skip(0) =~= cpf@);
        assert(multiplicadores@.skip(0) =~= multiplicadores@);
    }
    while i < tamanho
        invariant
            0 <= i <= tamanho,
            tamanho <= cpf@.len(),
            tamanho <= multiplicadores@.len(),
            tamanho == cpf@.len() || tamanho == multiplicadores@.len(),
            soma + soma_ponderada(cpf@.skip(i as int), multiplicadores@.skip(i as int))
                == soma_ponderada(cpf@, multiplicadores@),
            soma_ponderada(cpf@, multiplicadores@) <= u32::MAX,
        decreases tamanho - i,
    {
        proof {
            let a = cpf@.skip(i as int);
            let b = multiplicadores@.skip(i as int);
            assert(a.len() > 0 && b.len() > 0);
            assert(a[0] == cpf@[i as int] && b[0] == multiplicadores@[i as int]);
            assert(a.drop_first() =~= cpf@.skip(i as int + 1));
            assert(b.drop_first() =~= multiplicadores@.skip(i as int + 1));
            lema_soma_ponderada_nao_negativa(a.drop_first(), b.drop_first());
        }
        soma = soma + cpf[i] * multiplicadores[i];
        i = i + 1;
    }
    proof {
        if tamanho < cpf@.len() {
            assert(multiplicadores@.skip(tamanho as int).len() == 0);
        } else {
            assert(cpf@.skip(tamanho as int).len() == 0);
        }
    }
    let resto = soma % 11;
    if resto < 2 {
        0
    } else {
        11 - resto
    }
}

/// Os valores numericos de uma sequencia de digitos.
pub open spec fn valores_de(d: Seq<char>) -> Seq<u32> {
    d.map_values(|c: char| valor_digito(c) as u32)
}

/// Os multiplicadores do primeiro digito verificador do CPF.
pub open spec fn mult_primeiro() -> Seq<u32> {
    seq![10u32, 9u32, 8u32, 7u32, 6u32, 5u32, 4u32, 3u32, 2u32]
}

/// Os multiplicadores do segundo digito verificador do CPF.
pub open spec fn mult_segundo() -> Seq<u32> {
    seq![11u32, 10u32, 9u32, 8u32, 7u32, 6u32, 5u32, 4u32, 3u32, 2u32]
}

/// Um CPF e valido quando, limpo, tem onze digitos, nao e um so digito
/// repetido, e os dois digitos verificadores conferem.
pub open spec fn cpf_valido(s: Seq<char>) -> bool {
    let d = somente_digitos(s);
    let v = valores_de(d);
    &&& d.len() == 11
    &&& !todos_iguais(d)
    &&& digito_de(soma_ponderada(v.subrange(0, 9), mult_primeiro())) == v[9]
    &&& digito_de(soma_ponderada(v.subrange(0, 10), mult_segundo())) == v[10]
}

/// Valida um CPF por inteiro e diz o motivo exato de qualquer recusa.
pub fn validar_cpf(cpf: &str) -> (r: (bool, String))
    ensures
        r.0 == cpf_valido(cpf@),
        r.0 ==> r.1@ == "✅ CPF válido!"@,
        somente_digitos(cpf@).len() != 11 ==> r.1@ == "CPF deve ter 11 dígitos"@,
        somente_digitos(cpf@).len() == 11 && todos_iguais(somente_digitos(cpf@)) ==> r.1@
            == "CPF não pode ser sequência repetida"@,
        ({
            let d = somente_digitos(cpf@);
            let v = valores_de(d);
            d.len() == 11 && !todos_iguais(d) && digito_de(
                soma_ponderada(v.subrange(0, 9), mult_primeiro()),
            ) != v[9] ==> r.1@ == "Primeiro dígito verificador inválido"@
        }),
        ({
            let d = somente_digitos(cpf@);
            let v = valores_de(d);
            d.len() == 11 && !todos_iguais(d) && digito_de(
                soma_ponderada(v.subrange(0, 9), mult_primeiro()),
            ) == v[9] && digito_de(soma_ponderada(v.subrange(0, 10), mult_segundo())) != v[10]
                ==> r.1@ == "Segundo dígito verificador inválido"@
        }),
{
    let cpf_limpo = limpar_cpf(cpf);
    let tamanho = cpf_limpo.as_str().unicode_len();
    if tamanho != 11 {
        return (false, "CPF deve ter 11 dígitos".to_owned());
    }
    if cpf_tem_digitos_repetidos(cpf_limpo.as_str()) {
        return (false, "CPF não pode ser sequência repetida".to_owned());
    }
    proof {
        lema_somente_digitos_sao_digitos(cpf@);
    }
    let mut digitos: Vec<u32> = Vec::new();
    let mut i: usize = 0;
    while i < 11
        invariant
            cpf_limpo@ == somente_digitos(cpf@),
            cpf_limpo@.len() == 11,
            forall|k: int| 0 <= k < 11 ==> eh_digito(#[trigger] cpf_limpo@[k]),
            0 <= i <= 11,
            digitos@.len() == i,
            forall|k: int| 0 <= k < i ==> digitos@[k] == valores_de(cpf_limpo@)[k],
        decreases 11 - i,
    {
        let c = cpf_limpo.as_str().get_char(i);
        digitos.push(c as u32 - 48);
        i = i + 1;
    }
    proof {
        assert(digitos@ =~= valores_de(somente_digitos(cpf@)));
    }
    let mut mult1: Vec<u32> = Vec::new();
    mult1.push(10);
    mult1.push(9);
    mult1.push(8);
    mult1.push(7);
    mult1.push(6);
    mult1.push(5);
    mult1.push(4);
    mult1.push(3);
    mult1.push(2);
    proof {
        assert(mult1@ =~= mult_primeiro());
    }
    let fatia1 = vstd::slice::slice_subrange(digitos.as_slice(), 0, 9);
    proof {
        limite_de_produtos(fatia1@, mult1@);
        lema_soma_ponderada_limitada(fatia1@, mult1@, 108);
    }
    let digito1 = calcular_digito_cpf(fatia1, mult1.as_slice());
    if digito1 != digitos[9] {
        return (false, "Primeiro dígito verificador inválido".to_owned());
    }
    let mut mult2: Vec<u32> = Vec::new();
    mult2.push(11);
    mult2.push(10);
    mult2.push(9);
    mult2.push(8);
    mult2.push(7);
    mult2.push(6);
    mult2.push(5);
    mult2.push(4);
    mult2.push(3);
    mult2.push(2);
    proof {
        assert(mult2@ =~= mult_segundo());
    }
    let fatia2 = vstd::slice::slice_subrange(digitos.as_slice(), 0, 10);
    proof {
        limite_de_produtos(fatia2@, mult2@);
        lema_soma_ponderada_limitada(fatia2@, mult2@, 108);
    }
    let digito2 = calcular_digito_cpf(fatia2, mult2.as_slice());
    if digito2 != digitos[10] {
        return (false, "Segundo dígito verificador inválido".to_owned());
    }
    (true, "✅ CPF válido!".to_owned())
}

/// Quantas vezes o caractere c aparece em s.
pub open spec fn conta_de(s: Seq<char>, c: char) -> int
    decreases s.len(),
{
    if s.len() == 0 {
        0
    } else {
        conta_de(s.drop_last(), c) + if s.last() == c {
            1int
        } else {
            0int
        }
    }
}

/// A contagem de um caractere fica entre zero e o comprimento.
pub proof fn lema_conta_de_limites(s: Seq<char>, c: char)
    ensures
        0 <= conta_de(s, c) <= s.len(),
    decreases s.len(),
{
    if s.len() > 0 {
        lema_conta_de_limites(s.drop_last(), c);
    }
}

/// O caractere c existe em s.
pub open spec fn tem_char(s: Seq<char>, c: char) -> bool {
    exists|k: int| 0 <= k < s.len() && s[k] == c
}

/// p e a posicao da primeira ocorrencia de c em s.
pub open spec fn eh_primeiro(s: Seq<char>, c: char, p: int) -> bool {
    &&& 0 <= p < s.len()
    &&& s[p] == c
    &&& forall|k: int| 0 <= k < p ==> s[k] != c
}

/// Um caractere que pode aparecer na parte do usuario de um email.
pub open spec fn eh_char_de_usuario(c: char) -> bool {
    crate::texto::eh_alfanumerico(c) || c == '.' || c == '_' || c == '-'
}

/// A parte do usuario: o que vem antes do arroba na posicao p.
pub open spec fn usuario_de(t: Seq<char>, p: int) -> Seq<char> {
    t.subrange(0, p)
}

/// A parte do dominio: o que vem depois do arroba na posicao p.
pub open spec fn dominio_de(t: Seq<char>, p: int) -> Seq<char> {
    t.subrange(p + 1, t.len() as int)
}

/// As exigencias sobre as duas partes de um email cujo unico arroba esta
/// na posicao p: usuario e dominio nao vazios e so de caracteres
/// permitidos no usuario, e dominio com ponto, mas nao nas pontas.
pub open spec fn partes_validas(t: Seq<char>, p: int) -> bool {
    let usuario = usuario_de(t, p);
    let dominio = dominio_de(t, p);
    &&& usuario.len() > 0
    &&& dominio.len() > 0
    &&& tem_char(dominio, '.')
    &&& dominio[0] != '.'
    &&& dominio[dominio.len() - 1] != '.'
    &&& forall|k: int| 0 <= k < usuario.len() ==> eh_char_de_usuario(#[trigger] usuario[k])
}

/// Um email e valido quando, aparado, nao e vazio, tem exatamente um
/// arroba e as duas partes em volta dele passam nas exigencias.
pub open spec fn email_valido(s: Seq<char>) -> bool {
    let t = crate::texto::aparado_de(s);
    &&& t.len() > 0
    &&& conta_de(t, '@') == 1
    &&& forall|p: int| eh_primeiro(t, '@', p) ==> partes_validas(t, p)
}

/// Valida um email e diz o motivo exato de qualquer recusa.
pub fn validar_email(email: &str) -> (r: (bool, String))
    ensures
        r.0 == email_valido(email@),
        r.0 ==> r.1@ == "✅ Email válido!"@,
        ({
            let t = crate::texto::aparado_de(email@);
            &&& t.len() == 0 ==> r.1@ == "Email não pode estar vazio"@
            &&& t.len() > 0 && conta_de(t, '@') != 1 ==> r.1@
                == "Email deve conter exatamente um @"@
            &&& forall|p: int|
                t.len() > 0 && conta_de(t, '@') == 1 && eh_primeiro(t, '@', p) ==> {
                    let usuario = usuario_de(t, p);
                    let dominio = dominio_de(t, p);
                    &&& usuario.len() == 0 ==> r.1@ == "Usuário não pode estar vazio"@
                    &&& usuario.len() > 0 && dominio.len() == 0 ==> r.1@
                        == "Domínio não pode estar vazio"@
                    &&& usuario.len() > 0 && dominio.len() > 0 && !tem_char(dominio, '.')
                        ==> r.1@ == "Domínio deve conter pelo menos um ponto"@
                    &&& usuario.len() > 0 && dominio.len() > 0 && tem_char(dominio, '.') && (
                    dominio[0] == '.' || dominio[dominio.len() - 1] == '.') ==> r.1@
                        == "Domínio não pode começar ou terminar com ponto"@
                    &&& usuario.len() > 0 && dominio.len() > 0 && tem_char(dominio, '.')
                        && dominio[0] != '.' && dominio[dominio.len() - 1] != '.' && !(
                    forall|k: int| 0 <= k < usuario.len() ==> eh_char_de_usuario(
                        #[trigger] usuario[k],
                    )) ==> r.1@ == "Usuário contém caracteres inválidos"@
                }
        }),
{
    let aparado = crate::texto::aparar(email);
    let tamanho = aparado.unicode_len();
    if tamanho == 0 {
        return (false, "Email não pode estar vazio".to_owned());
    }
    let ghost t = aparado@;
    let mut arrobas: usize = 0;
    let mut posicao: usize = 0;
    let mut i: usize = 0;
    proof {
        assert(t.subrange(0, 0) =~= Seq::<char>::empty());
        lema_conta_de_limites(t, '@');
    }
    while i < tamanho
        invariant
            0 <= i <= tamanho,
            tamanho == t.len(),
            t == aparado@,
            arrobas == conta_de(t.subrange(0, i as int), '@'),
            arrobas <= i,
            arrobas > 0 ==> eh_primeiro(t, '@', posicao as int) && posicao < i,
            arrobas == 0 ==> forall|k: int| 0 <= k < i ==> t[k] != '@',
        decreases tamanho - i,
    {
        let c = aparado.get_char(i);
        proof {
            let prefixo = t.subrange(0, i as int + 1);
            assert(prefixo.drop_last() =~= t.subrange(0, i as int));
            assert(prefixo.last() == t[i as int]);
        }
        if c == '@' {
            if arrobas == 0 {
                posicao = i;
            }
            arrobas = arrobas + 1;
        }
        i = i + 1;
    }
    proof {
        assert(t.subrange(0, tamanho as int) =~= t);
    }
    if arrobas != 1 {
        proof {
            if arrobas == 0 {
                assert forall|p: int| !eh_primeiro(t, '@', p) by {
                    if 0 <= p < t.len() {
                        assert(t[p] != '@');
                    }
                }
            }
        }
        return (false, "Email deve conter exatamente um @".to_owned());
    }
    proof {
        assert forall|p: int| eh_primeiro(t, '@', p) implies p == posicao as int by {
            if p < posicao as int {
                assert(t[p] == '@');
            } else if p > posicao as int {
                assert(t[posicao as int] != '@');
            }
        }
    }
    let ghost gp = posicao as int;
    let ghost usuario = usuario_de(t, gp);
    let ghost dominio = dominio_de(t, gp);
    if posicao == 0 {
        proof {
            assert(usuario_de(t, gp).len() == 0);
            assert(!partes_validas(t, gp));
            assert(!email_valido(email@));
        }
        return (false, "Usuário não pode estar vazio".to_owned());
    }
    if posicao + 1 == tamanho {
        proof {
            assert(usuario_de(t, gp).len() == gp);
            assert(dominio_de(t, gp).len() == 0);
            assert(!partes_validas(t, gp));
            assert(!email_valido(email@));
        }
        return (false, "Domínio não pode estar vazio".to_owned());
    }
    let mut tem_ponto: bool = false;
    let mut j: usize = posicao + 1;
    while j < tamanho
        invariant
            posicao as int + 1 <= j <= tamanho,
            tamanho == t.len(),
            t == aparado@,
            tem_ponto <==> exists|k: int| posicao as int + 1 <= k < j && t[k] == '.',
        decreases tamanho - j,
    {
        if aparado.get_char(j) == '.' {
            tem_ponto = true;
        }
        j = j + 1;
    }
    proof {
        assert(tem_ponto <==> tem_char(dominio, '.')) by {
            if tem_ponto {
                let k = choose|k: int| gp + 1 <= k < tamanho && t[k] == '.';
                assert(dominio[k - gp - 1] == '.');
            }
            if tem_char(dominio, '.') {
                let k = choose|k: int| 0 <= k < dominio.len() && dominio[k] == '.';
                assert(t[gp + 1 + k] == '.');
            }
        }
    }
    if !tem_ponto {
        proof {
            assert(!partes_validas(t, gp));
            assert(!email_valido(email@));
        }
        return (false, "Domínio deve conter pelo menos um ponto".to_owned());
    }
    proof {
        assert(dominio[0] == t[gp + 1]);
        assert(dominio[dominio.len() - 1] == t[tamanho - 1]);
    }
    if aparado.get_char(posicao + 1) == '.' || aparado.get_char(tamanho - 1) == '.' {
        proof {
            assert(dominio[0] == '.' || dominio[dominio.len() - 1] == '.');
            assert(!partes_validas(t, gp));
            assert(!email_valido(email@));
        }
        return (false, "Domínio não pode começar ou terminar com ponto".to_owned());
    }
    let mut u: usize = 0;
    while u < posicao
        invariant
            0 <= u <= posicao,
            posicao < tamanho == t.len(),
            t == aparado@,
            t == crate::texto::aparado_de(email@),
            gp == posicao as int,
            usuario == usuario_de(t, gp),
            usuario.len() == gp,
            conta_de(t, '@') == 1,
            eh_primeiro(t, '@', gp),
            forall|p: int| eh_primeiro(t, '@', p) ==> p == gp,
            dominio == dominio_de(t, gp),
            dominio.len() > 0,
            tem_char(dominio, '.'),
            dominio[0] != '.',
            dominio[dominio.len() - 1] != '.',
            forall|k: int| 0 <= k < u ==> eh_char_de_usuario(#[trigger] usuario[k]),
        decreases posicao - u,
    {
        let c = aparado.get_char(u);
        let permitido = crate::texto::char_eh_alfanumerico(c) || c == '.' || c == '_' || c
            == '-';
        proof {
            assert(usuario[u as int] == t[u as int]);
        }
        if !permitido {
            proof {
                assert(!eh_char_de_usuario(usuario[u as int]));
                assert(!partes_validas(t, gp));
                assert(!email_valido(email@));
            }
            return (false, "Usuário contém caracteres inválidos".to_owned());
        }
        u = u + 1;
    }
    proof {
        assert(usuario.len() == gp);
        assert(partes_validas(t, gp));
        assert forall|p: int| eh_primeiro(t, '@', p) implies partes_validas(t, p) by {
            assert(p == gp);
        }
        assert(email_valido(email@));
    }
    (true, "✅ Email válido!".to_owned())
}

/// Um caractere do conjunto de especiais aceito em senhas:
/// !@#$%^&*()_+-=[]{}|;:,.<>?
pub open spec fn eh_especial(c: char) -> bool {
    ||| c == '!'
    ||| c == '@'
    ||| c == '#'
    ||| c == '$'
    ||| c == '%'
    ||| c == '^'
    ||| c == '&'
    ||| c == '*'
    ||| c == '('
    ||| c == ')'
    ||| c == '_'
    ||| c == '+'
    ||| c == '-'
    ||| c == '='
    ||| c == '['
    ||| c == ']'
    ||| c == '{'
    ||| c == '}'
    ||| c == '|'
    ||| c == ';'
    ||| c == ':'
    ||| c == ','
    ||| c == '.'
    ||| c == '<'
    ||| c == '>'
    ||| c == '?'
}

/// Decide se um caractere e um dos especiais aceitos em senhas.
pub fn char_eh_especial(c: char) -> (r: bool)
    ensures
        r == eh_especial(c),
{
    c == '!' || c == '@' || c == '#' || c == '$' || c == '%' || c == '^' || c == '&' || c == '*'
        || c == '(' || c == ')' || c == '_' || c == '+' || c == '-' || c == '=' || c == '[' || c
        == ']' || c == '{' || c == '}' || c == '|' || c == ';' || c == ':' || c == ',' || c == '.'
        || c == '<' || c == '>' || c == '?'
}

/// A senha tem alguma letra maiuscula.
pub open spec fn tem_maiuscula(s: Seq<char>) -> bool {
    exists|k: int| 0 <= k < s.len() && crate::texto::eh_maiuscula(#[trigger] s[k])
}

/// A senha tem alguma letra minuscula.
pub open spec fn tem_minuscula(s: Seq<char>) -> bool {
    exists|k: int| 0 <= k < s.len() && crate::texto::eh_minuscula(#[trigger] s[k])
}

/// A senha tem algum digito decimal.
pub open spec fn tem_digito(s: Seq<char>) -> bool {
    exists|k: int| 0 <= k < s.len() && eh_digito(#[trigger] s[k])
}

/// A senha tem algum caractere especial.
pub open spec fn tem_especial(s: Seq<char>) -> bool {
    exists|k: int| 0 <= k < s.len() && eh_especial(#[trigger] s[k])
}

/// Procura alguma letra maiuscula.
fn contem_maiuscula(s: &str) -> (r: bool)
    ensures
        r == tem_maiuscula(s@),
{
    let tamanho = s.unicode_len();
    let mut i: usize = 0;
    while i < tamanho
        invariant
            0 <= i <= tamanho,
            tamanho == s@.len(),
            forall|k: int| 0 <= k < i ==> !crate::texto::eh_maiuscula(#[trigger] s@[k]),
        decreases tamanho - i,
    {
        if crate::texto::char_eh_maiuscula(s.get_char(i)) {
            return true;
        }
        i = i + 1;
    }
    false
}

/// Procura alguma letra minuscula.
fn contem_minuscula(s: &str) -> (r: bool)
    ensures
        r == tem_minuscula(s@),
{
    let tamanho = s.unicode_len();
    let mut i: usize = 0;
    while i < tamanho
        invariant
            0 <= i <= tamanho,
            tamanho == s@.len(),
            forall|k: int| 0 <= k < i ==> !crate::texto::eh_minuscula(#[trigger] s@[k]),
        decreases tamanho - i,
    {
        if crate::texto::char_eh_minuscula(s.get_char(i)) {
            return true;
        }
        i = i + 1;
    }
    false
}

/// Procura algum digito decimal.
fn contem_digito(s: &str) -> (r: bool)
    ensures
        r == tem_digito(s@),
{
    let tamanho = s.unicode_len();
    let mut i: usize = 0;
    while i < tamanho
        invariant
            0 <= i <= tamanho,
            tamanho == s@.len(),
            forall|k: int| 0 <= k < i ==> !eh_digito(#[trigger] s@[k]),
        decreases tamanho - i,
    {
        if char_eh_digito(s.get_char(i)) {
            return true;
        }
        i = i + 1;
    }
    false
}

/// Procura algum caractere especial.
fn contem_especial(s: &str) -> (r: bool)
    ensures
        r == tem_especial(s@),
{
    let tamanho = s.unicode_len();
    let mut i: usize = 0;
    while i < tamanho
        invariant
            0 <= i <= tamanho,
            tamanho == s@.len(),
            forall|k: int| 0 <= k < i ==> !eh_especial(#[trigger] s@[k]),
        decreases tamanho - i,
    {
        if char_eh_especial(s.get_char(i)) {
            return true;
        }
        i = i + 1;
    }
    false
}

/// Os problemas de uma senha, na ordem em que sao verificados: tamanho em
/// bytes de pelo menos oito, uma maiuscula, uma minuscula, um digito e um
/// caractere especial.
pub open spec fn problemas_senha(s: &str) -> Seq<Seq<char>> {
    (if s.spec_bytes().len() < 8 {
        seq!["❌ Mínimo 8 caracteres"@]
    } else {
        Seq::empty()
    }) + (if !tem_maiuscula(s@) {
        seq!["❌ Pelo menos uma letra MAIÚSCULA"@]
    } else {
        Seq::empty()
    }) + (if !tem_minuscula(s@) {
        seq!["❌ Pelo menos uma letra minúscula"@]
    } else {
        Seq::empty()
    }) + (if !tem_digito(s@) {
        seq!["❌ Pelo menos um número"@]
    } else {
        Seq::empty()
    }) + (if !tem_especial(s@) {
        seq!["❌ Pelo menos um caractere especial (!@#$%...)"@]
    } else {
        Seq::empty()
    })
}

/// Valida uma senha e devolve a lista exata dos problemas encontrados.
pub fn validar_senha(senha: &str) -> (r: (bool, Vec<String>))
    ensures
        r.1@.map_values(|p: String| p@) == problemas_senha(senha),
        r.0 <==> problemas_senha(senha).len() == 0,
        r.0 <==> (senha.spec_bytes().len() >= 8 && tem_maiuscula(senha@) && tem_minuscula(senha@)
            && tem_digito(senha@) && tem_especial(senha@)),
{
    let mut problemas: Vec<String> = Vec::new();
    if senha.as_bytes().len() < 8 {
        problemas.push("❌ Mínimo 8 caracteres".to_owned());
    }
    if !contem_maiuscula(senha) {
        problemas.push("❌ Pelo menos uma letra MAIÚSCULA".to_owned());
    }
    if !contem_minuscula(senha) {
        problemas.push("❌ Pelo menos uma letra minúscula".to_owned());
    }
    if !contem_digito(senha) {
        problemas.push("❌ Pelo menos um número".to_owned());
    }
    if !contem_especial(senha) {
        problemas.push("❌ Pelo menos um caractere especial (!@#$%...)".to_owned());
    }
    let valido = problemas.is_empty();
    proof {
        assert(problemas@.map_values(|p: String| p@) =~= problemas_senha(senha));
    }
    (valido, problemas)
}

/// A forca de uma senha, de zero a cinco: um ponto por criterio atendido,
/// com teto em cinco.
pub open spec fn forca_de(s: &str) -> int {
    let pontos = (if s.spec_bytes().len() >= 8 {
        1int
    } else {
        0int
    }) + (if s.spec_bytes().len() >= 12 {
        1int
    } else {
        0int
    }) + (if tem_maiuscula(s@) {
        1int
    } else {
        0int
    }) + (if tem_minuscula(s@) {
        1int
    } else {
        0int
    }) + (if tem_digito(s@) {
        1int
    } else {
        0int
    }) + (if tem_especial(s@) {
        1int
    } else {
        0int
    });
    if pontos > 5 {
        5
    } else {
        pontos
    }
}

/// Calcula a forca de uma senha.
pub fn calcular_forca_senha(senha: &str) -> (r: u8)
    ensures
        r == forca_de(senha),
{
    let mut forca: u8 = 0;
    if senha.as_bytes().len() >= 8 {
        forca = forca + 1;
    }
    if senha.as_bytes().len() >= 12 {
        forca = forca + 1;
    }
    if contem_maiuscula(senha) {
        forca = forca + 1;
    }
    if contem_minuscula(senha) {
        forca = forca + 1;
    }
    if contem_digito(senha) {
        forca = forca + 1;
    }
    if contem_especial(senha) {
        forca = forca + 1;
    }
    if forca > 5 {
        5
    } else {
        forca
    }
}

/// Descreve uma forca de senha em palavras.
pub fn descricao_forca(forca: u8) -> (r: &'static str)
    ensures
        forca <= 1 ==> r@ == "Muito Fraca 😱"@,
        forca == 2 ==> r@ == "Fraca 😟"@,
        forca == 3 ==> r@ == "Razoável 😐"@,
        forca == 4 ==> r@ == "Forte 😊"@,
        forca == 5 ==> r@ == "Muito Forte 💪"@,
        forca > 5 ==> r@ == "Desconhecida"@,
{
    if forca <= 1 {
        "Muito Fraca 😱"
    } else if forca == 2 {
        "Fraca 😟"
    } else if forca == 3 {
        "Razoável 😐"
    } else if forca == 4 {
        "Forte 😊"
    } else if forca == 5 {
        "Muito Forte 💪"
    } else {
        "Desconhecida"
    }
}

/// Produtos de digitos por multiplicadores de ate doze ficam ate 108.
proof fn limite_de_produtos(a: Seq<u32>, b: Seq<u32>)
    requires
        forall|k: int| 0 <= k < a.len() ==> #[trigger] a[k] <= 9,
        forall|k: int| 0 <= k < b.len() ==> #[trigger] b[k] <= 12,
    ensures
        forall|k: int| 0 <= k < a.len() && k < b.len() ==> #[trigger] (a[k] * b[k]) <= 108,
{
    assert forall|k: int| 0 <= k < a.len() && k < b.len() implies #[trigger] (a[k] * b[k])
        <= 108 by {
        assert(a[k] * b[k] <= 108) by (nonlinear_arith)
            requires
                a[k] <= 9,
                b[k] <= 12,
        ;
    }
}

} // verus!
