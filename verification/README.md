# phoebe_rs

Eclipsing binary light curves, with the parts that decide something verified in
Verus.

* `src/` is the library. It knows the passbands, their names and limb
  darkening, which law gives a band its surface brightness and at which points
  it is evaluated, which surface elements of a star are seen, what the flux of
  each star is computed from, how a curve is normalised and laid out, and how
  throughput tables and template banks are read. It is generic over the numbers
  it works with: formulas come in as closures, and the contracts say which
  formula is applied to what, in which order.
* `tests/` runs the library on concrete numbers.
* `app/` supplies double precision: Planck, trigonometry, the light of one
  surface element, environment variables and the template bank program. Roche
  geometry comes in through its `Roche` trait.

| module | holds |
| --- | --- |
| `passband` | bands, transmission, surface brightness, brightness tables |
| `lsst_tables` | the throughput table format and its grid |
| `flux` | eclipse tolerance, gravity darkening, reflection, the flux of one star |
| `flux_laws` | what holds of the flux of one star as a whole |
| `shine` | the flux of one star of a scene |
| `params` | the parameters of a system |
| `lightcurve` | meshes, normalisation, curves in one band and in several |
| `curve_laws` | what holds of light curves as a whole |
| `bank` | the template bank format |
| `sum`, `text`, `star`, `error` | what these share |
