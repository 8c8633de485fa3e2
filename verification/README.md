# piper_vits

Text to speech with VITS voices, written in Verus. The library in `src/` decides everything about a
network that can be decided without floating-point numbers: which layers a voice has, which
parameters they hold and where those are found, which operations turn phonemes into samples, and of
what kinds and shapes every operand is. Only inference is supported.

A tensor is a recipe (`src/tensor.rs`): an operation, its operands, and the kind and shape of what
it yields. The contracts of the layers say which recipe they yield, that it is well formed, and which
shape it has. Where elements are only moved about, masked or counted, `src/element.rs` tells which
whole number stands where, and the laws about masks, alignments and relative positions are proved
over that. What recipes yield in real numbers is told in `src/value.rs`; over that it is proved what
the flows and the splines undo, what the weights of convolutions are, how many frames durations make
up, that phonemes past the length of a text are not heard, that samples lie between minus one and
one, and that without noise a voice always says the same.

| Files | What they hold |
| --- | --- |
| `number`, `limits`, `shape`, `param`, `tensor` | numbers by their bit patterns, shapes, parameters, recipes |
| `element`, `value` | elements and values of recipes |
| `alike`, `readings`, `draws`, `steady` | what has the same values, and what does not depend on chance |
| `inverse`, `quotients`, `knots`, `curve`, `splined` | what coupling layers, logarithms, splines and spline layers undo |
| `norms`, `durations` | weights of normalised convolutions, durations and frames |
| `lengths`, `samples` | what the text encoder leaves out, and how loud samples can be |
| `nn`, `conv`, `wavenet`, `attention`, `encoder` | layers |
| `generator`, `flow`, `spline`, `predictor`, `discriminator`, `synthesizer` | parts of the network |
| `vits`, `voice`, `speech`, `id_map`, `json` | settings, descriptions of voices, sentences |
| `trace` | which tensors of a function are traced, and how |

The program in `app/` reads and writes files, holds the values of the parameters, and computes
recipes with burn.

```
piper convert --model-path <state dict> --model-config <description> \
    --model-quality <low, medium, high> --model-name <voice> --output-path models/
piper run --model-path models/<voice>.bpk --model-config models/<voice>.json \
    --target-text "Hello piper"
```
