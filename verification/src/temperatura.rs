//! As escalas de temperatura que o conversor conhece. As conversoes em si
//! trabalham com ponto flutuante e ficam com a camada de fora.

use vstd::prelude::*;

verus! {

/// Uma escala de temperatura.
#[derive(Debug, Clone, Copy, PartialEq, Eq, Structural)]
pub enum EscalaTemperatura {
    Celsius,
    Fahrenheit,
    Kelvin,
}

impl EscalaTemperatura {
    /// O nome de exibicao da escala, com o simbolo da unidade.
    pub fn descricao(&self) -> (r: &'static str)
        ensures
            *self is Celsius ==> r@ == "Celsius (°C)"@,
            *self is Fahrenheit ==> r@ == "Fahrenheit (°F)"@,
            *self is Kelvin ==> r@ == "Kelvin (K)"@,
    {
        match self {
            EscalaTemperatura::Celsius => "Celsius (°C)",
            EscalaTemperatura::Fahrenheit => "Fahrenheit (°F)",
            EscalaTemperatura::Kelvin => "Kelvin (K)",
        }
    }
}

} // verus!
