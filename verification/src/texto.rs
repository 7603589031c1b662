//! Texto: classificacao de caracteres, remocao de espacos das pontas e
//! capitalizacao de nomes. As classes de caracteres do Unicode e as
//! conversoes de caixa vem da biblioteca padrao, atras de itens confiados;
//! a logica sobre elas e verificada.

use vstd::prelude::*;

verus! {

/// O que char::is_whitespace devolve para cada caractere.
pub uninterp spec fn eh_espaco(c: char) -> bool;

/// O que char::is_alphanumeric devolve para cada caractere.
pub uninterp spec fn eh_alfanumerico(c: char) -> bool;

/// O que char::is_uppercase devolve para cada caractere.
pub uninterp spec fn eh_maiuscula(c: char) -> bool;

/// O que char::is_lowercase devolve para cada caractere.
pub uninterp spec fn eh_minuscula(c: char) -> bool;

/// O que str::to_lowercase devolve: funcao dos caracteres apenas.
pub uninterp spec fn minusculas_de(s: Seq<char>) -> Seq<char>;

/// O que char::to_uppercase devolve, como sequencia de caracteres:
/// funcao do caractere apenas.
pub uninterp spec fn maiusculas_do_char(c: char) -> Seq<char>;

/// Apoia-se em char::is_whitespace, que decide pela propriedade
/// White_Space do Unicode, funcao do caractere apenas.
#[verifier::external_body]
pub fn char_eh_espaco(c: char) -> (r: bool)
    ensures
        r == eh_espaco(c),
{
    c.is_whitespace()
}

/// Apoia-se em char::is_alphanumeric, que decide pelas categorias do
/// Unicode, funcao do caractere apenas.
#[verifier::external_body]
pub fn char_eh_alfanumerico(c: char) -> (r: bool)
    ensures
        r == eh_alfanumerico(c),
{
    c.is_alphanumeric()
}

/// Apoia-se em char::is_uppercase, que decide pela categoria Lu e pela
/// propriedade Other_Uppercase do Unicode, funcao do caractere apenas.
#[verifier::external_body]
pub fn char_eh_maiuscula(c: char) -> (r: bool)
    ensures
        r == eh_maiuscula(c),
{
    c.is_uppercase()
}

/// Apoia-se em char::is_lowercase, que decide pela categoria Ll e pela
/// propriedade Other_Lowercase do Unicode, funcao do caractere apenas.
#[verifier::external_body]
pub fn char_eh_minuscula(c: char) -> (r: bool)
    ensures
        r == eh_minuscula(c),
{
    c.is_lowercase()
}

/// Apoia-se em str::to_lowercase: o resultado depende dos caracteres
/// apenas, e uma entrada vazia da saida vazia.
#[verifier::external_body]
pub fn minusculas(s: &str) -> (r: String)
    ensures
        r@ == minusculas_de(s@),
        s@.len() == 0 ==> r@.len() == 0,
{
    s.to_lowercase()
}

/// Apoia-se em char::to_uppercase, cujo resultado (um ou mais caracteres)
/// depende do caractere apenas; o iterador devolvido vira uma String.
#[verifier::external_body]
pub fn maiusculas_de_char(c: char) -> (r: String)
    ensures
        r@ == maiusculas_do_char(c),
{
    c.to_uppercase().to_string()
}

/// Apoia-se em String::push: acrescenta um caractere ao fim.
#[verifier::external_body]
pub fn acrescenta_char(s: &mut String, c: char)
    ensures
        final(s)@ == old(s)@.push(c),
{
    s.push(c)
}

/// Um digito decimal: os caracteres de '0' a '9', cujos codigos vao de 48
/// a 57.
pub open spec fn eh_digito(c: char) -> bool {
    48 <= c as u32 <= 57
}

/// O valor numerico de um digito decimal.
pub open spec fn valor_digito(c: char) -> int {
    c as u32 - 48
}

/// Decide se um caractere e um digito decimal.
pub fn char_eh_digito(c: char) -> (r: bool)
    ensures
        r == eh_digito(c),
{
    let codigo = c as u32;
    48 <= codigo && codigo <= 57
}

/// Uma sequencia sem os espacos das duas pontas.
pub open spec fn aparado_de(s: Seq<char>) -> Seq<char>
    decreases s.len(),
{
    if s.len() == 0 {
        s
    } else if eh_espaco(s[0]) {
        aparado_de(s.drop_first())
    } else if eh_espaco(s.last()) {
        aparado_de(s.drop_last())
    } else {
        s
    }
}

/// O trecho de i ate j e exatamente o aparado de s quando fora dele so ha
/// espacos e as pontas dele nao sao espacos.
proof fn lema_aparado(s: Seq<char>, i: int, j: int)
    requires
        0 <= i <= j <= s.len(),
        forall|k: int| 0 <= k < i ==> eh_espaco(#[trigger] s[k]),
        forall|k: int| j <= k < s.len() ==> eh_espaco(#[trigger] s[k]),
        i < j ==> !eh_espaco(s[i]) && !eh_espaco(s[j - 1]),
    ensures
        aparado_de(s) == s.subrange(i, j),
    decreases s.len(),
{
    if s.len() == 0 {
        assert(s.subrange(i, j) =~= s);
    } else if eh_espaco(s[0]) {
        if i == j {
            lema_aparado(s.drop_first(), 0, 0);
            assert(s.subrange(i, j) =~= s.drop_first().subrange(0, 0));
        } else {
            lema_aparado(s.drop_first(), i - 1, j - 1);
            assert(s.subrange(i, j) =~= s.drop_first().subrange(i - 1, j - 1));
        }
    } else {
        assert(i == 0);
        if j == s.len() {
            assert(j > 0);
            assert(!eh_espaco(s.last()));
            assert(s.subrange(0, s.len() as int) =~= s);
        } else {
            assert(eh_espaco(s.last()));
            lema_aparado(s.drop_last(), 0, j);
            assert(s.subrange(i, j) =~= s.drop_last().subrange(0, j));
        }
    }
}

/// Devolve o trecho de s sem os espacos do comeco e do fim.
pub fn aparar(s: &str) -> (r: &str)
    ensures
        r@ == aparado_de(s@),
{
    let tamanho = s.unicode_len();
    let mut i: usize = 0;
    loop
        invariant
            0 <= i <= tamanho,
            tamanho == s@.len(),
            forall|k: int| 0 <= k < i ==> eh_espaco(#[trigger] s@[k]),
        ensures
            0 <= i <= tamanho,
            forall|k: int| 0 <= k < i ==> eh_espaco(#[trigger] s@[k]),
            i < tamanho ==> !eh_espaco(s@[i as int]),
        decreases tamanho - i,
    {
        if i == tamanho {
            break ;
        }
        if !char_eh_espaco(s.get_char(i)) {
            break ;
        }
        i = i + 1;
    }
    let mut j: usize = tamanho;
    loop
        invariant
            i <= j <= tamanho,
            tamanho == s@.len(),
            i < tamanho ==> !eh_espaco(s@[i as int]),
            forall|k: int| j <= k < tamanho ==> eh_espaco(#[trigger] s@[k]),
        ensures
            i <= j <= tamanho,
            forall|k: int| j <= k < tamanho ==> eh_espaco(#[trigger] s@[k]),
            j > i ==> !eh_espaco(s@[j - 1]),
        decreases j,
    {
        if j == i {
            break ;
        }
        if !char_eh_espaco(s.get_char(j - 1)) {
            break ;
        }
        j = j - 1;
    }
    proof {
        lema_aparado(s@, i as int, j as int);
    }
    s.substring_char(i, j)
}

/// Onde acaba a palavra que comeca na posicao i: o primeiro indice, a
/// partir de i, que e um espaco ou o fim da sequencia.
pub open spec fn fim_palavra(s: Seq<char>, i: int) -> int
    decreases s.len() - i,
{
    if i < 0 || i >= s.len() {
        i
    } else if eh_espaco(s[i]) {
        i
    } else {
        fim_palavra(s, i + 1)
    }
}

/// O fim de palavra fica entre i e o fim, nada antes dele e espaco, e ele
/// avanca pelo menos um passo sobre um nao espaco.
pub proof fn lema_fim_palavra(s: Seq<char>, i: int)
    requires
        0 <= i <= s.len(),
    ensures
        i <= fim_palavra(s, i) <= s.len(),
        forall|k: int| i <= k < fim_palavra(s, i) ==> !eh_espaco(#[trigger] s[k]),
        fim_palavra(s, i) < s.len() ==> eh_espaco(s[fim_palavra(s, i)]),
        i < s.len() && !eh_espaco(s[i]) ==> fim_palavra(s, i) >= i + 1,
    decreases s.len() - i,
{
    if i < s.len() && !eh_espaco(s[i]) {
        lema_fim_palavra(s, i + 1);
    }
}

/// Uma palavra capitalizada: o primeiro caractere em maiusculas e o resto
/// em minusculas.
pub open spec fn capitaliza_palavra(w: Seq<char>) -> Seq<char> {
    if w.len() == 0 {
        w
    } else {
        maiusculas_do_char(w[0]) + minusculas_de(w.subrange(1, w.len() as int))
    }
}

/// O texto capitalizado a partir da posicao i: espacos sao pulados, cada
/// palavra e capitalizada, e as palavras saem separadas por um unico
/// espaco; `primeira` diz se nenhuma palavra saiu ainda.
pub open spec fn capitalizado_desde(s: Seq<char>, i: int, primeira: bool) -> Seq<char>
    decreases s.len() - i,
    when 0 <= i <= s.len()
    via lema_capitalizado_desde_decresce
{
    if i >= s.len() {
        Seq::empty()
    } else if eh_espaco(s[i]) {
        capitalizado_desde(s, i + 1, primeira)
    } else {
        (if primeira {
            Seq::empty()
        } else {
            seq![' ']
        }) + capitaliza_palavra(s.subrange(i, fim_palavra(s, i))) + capitalizado_desde(
            s,
            fim_palavra(s, i),
            false,
        )
    }
}

#[via_fn]
proof fn lema_capitalizado_desde_decresce(s: Seq<char>, i: int, primeira: bool) {
    if 0 <= i < s.len() && !eh_espaco(s[i]) {
        lema_fim_palavra(s, i);
    }
}

/// O texto inteiro capitalizado, palavra a palavra.
pub open spec fn capitalizado_de(s: Seq<char>) -> Seq<char> {
    capitalizado_desde(s, 0, true)
}

/// Capitaliza um texto: cada palavra sai com a inicial em maiusculas e o
/// resto em minusculas, e as palavras saem separadas por um unico espaco,
/// sem espacos nas pontas.
pub fn capitalizar(texto: &str) -> (r: String)
    ensures
        r@ == capitalizado_de(texto@),
{
    let tamanho = texto.unicode_len();
    let mut resultado = String::new();
    let mut primeira: bool = true;
    let mut i: usize = 0;
    proof {
        assert(Seq::<char>::empty() + capitalizado_desde(texto@, 0, true) =~= capitalizado_desde(
            texto@,
            0,
            true,
        ));
    }
    while i < tamanho
        invariant
            0 <= i <= tamanho,
            tamanho == texto@.len(),
            resultado@ + capitalizado_desde(texto@, i as int, primeira) == capitalizado_de(texto@),
        decreases tamanho - i,
    {
        if char_eh_espaco(texto.get_char(i)) {
            proof {
                assert(capitalizado_desde(texto@, i as int, primeira) == capitalizado_desde(
                    texto@,
                    i as int + 1,
                    primeira,
                ));
            }
            i = i + 1;
        } else {
            proof {
                lema_fim_palavra(texto@, i as int);
            }
            let mut j: usize = i + 1;
            proof {
                assert(fim_palavra(texto@, i as int) == fim_palavra(texto@, i as int + 1));
            }
            loop
                invariant
                    i < j <= tamanho,
                    tamanho == texto@.len(),
                    fim_palavra(texto@, i as int) == fim_palavra(texto@, j as int),
                ensures
                    i < j <= tamanho,
                    j as int == fim_palavra(texto@, i as int),
                decreases tamanho - j,
            {
                if j == tamanho {
                    proof {
                        assert(fim_palavra(texto@, j as int) == j as int);
                    }
                    break ;
                }
                if char_eh_espaco(texto.get_char(j)) {
                    proof {
                        assert(fim_palavra(texto@, j as int) == j as int);
                    }
                    break ;
                }
                proof {
                    assert(fim_palavra(texto@, j as int) == fim_palavra(texto@, j as int + 1));
                }
                j = j + 1;
            }
            let ghost antes = resultado@;
            let ghost separador: Seq<char> = if primeira {
                Seq::empty()
            } else {
                seq![' ']
            };
            if !primeira {
                acrescenta_char(&mut resultado, ' ');
            }
            let inicial = maiusculas_de_char(texto.get_char(i));
            resultado.append(inicial.as_str());
            let resto = texto.substring_char(i + 1, j);
            let resto_minusculo = minusculas(resto);
            resultado.append(resto_minusculo.as_str());
            proof {
                let s = texto@;
                let gi = i as int;
                let gj = j as int;
                let w = s.subrange(gi, gj);
                assert(w.len() > 0);
                assert(w[0] == s[gi]);
                assert(w.subrange(1, w.len() as int) =~= s.subrange(gi + 1, gj));
                assert(capitalizado_desde(s, gi, primeira) == separador + capitaliza_palavra(w)
                    + capitalizado_desde(s, gj, false));
                assert(resultado@ =~= antes + separador + maiusculas_do_char(s[gi])
                    + minusculas_de(s.subrange(gi + 1, gj)));
                assert(resultado@ + capitalizado_desde(s, gj, false) =~= antes
                    + capitalizado_desde(s, gi, primeira));
            }
            i = j;
            primeira = false;
        }
    }
    proof {
        assert(capitalizado_desde(texto@, i as int, primeira) =~= Seq::<char>::empty());
        assert(resultado@ + capitalizado_desde(texto@, i as int, primeira) =~= resultado@);
    }
    resultado
}

} // verus!
