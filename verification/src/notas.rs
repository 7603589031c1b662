//! Classificacao de notas escolares em conceitos de A a F.

use vstd::prelude::*;

verus! {

/// O conceito de uma nota: A de 90 a 100, B de 80 a 89, C de 70 a 79, D de
/// 60 a 69, F de 0 a 59, e invalida fora disso.
pub open spec fn conceito_de(nota: int) -> Seq<char> {
    if 90 <= nota <= 100 {
        "A"@
    } else if 80 <= nota <= 89 {
        "B"@
    } else if 70 <= nota <= 79 {
        "C"@
    } else if 60 <= nota <= 69 {
        "D"@
    } else if 0 <= nota <= 59 {
        "F"@
    } else {
        "Inválida"@
    }
}

/// Classifica uma nota no seu conceito.
pub fn classificar_nota(nota: i32) -> (r: &'static str)
    ensures
        r@ == conceito_de(nota as int),
{
    if 90 <= nota && nota <= 100 {
        "A"
    } else if 80 <= nota && nota <= 89 {
        "B"
    } else if 70 <= nota && nota <= 79 {
        "C"
    } else if 60 <= nota && nota <= 69 {
        "D"
    } else if 0 <= nota && nota <= 59 {
        "F"
    } else {
        "Inválida"
    }
}

} // verus!
